//! The active display paths: which monitors show which part of the desktop.
use vstd::hash_map::StringHashMap;
use vstd::hash_set::StringHashSet;
use vstd::prelude::*;

use crate::monitor_control::{win32_status, ErrorModel, MonitorError};
use crate::text::{
    before, chars_of, concat, concat3, count_before, decimal, decimal_string, find, is_before,
    lemma_before_irreflexive, lemma_before_total, lemma_before_transitive, position,
    prefix_without, string_of, to_upper, trim, trim_chars, trimmed, upper, upper_char,
    upper_chars, views,
};
use crate::wide::{terminated_text, wide_to_string};

verus! {

/// One character of a plug-and-play id: both separators become a backslash, letters are in
/// upper case.
pub open spec fn pnp_char(c: char) -> char {
    if c == '#' || c == '/' {
        '\\'
    } else {
        upper_char(c)
    }
}

/// The canonical spelling of a plug-and-play id.
pub open spec fn pnp_id(value: Seq<char>) -> Seq<char> {
    Seq::new(value.len(), |i: int| pnp_char(value[i]))
}

/// The canonical spelling of a GDI device name.
pub open spec fn gdi_name(value: Seq<char>) -> Seq<char> {
    upper(trimmed(value))
}

/// The plug-and-play id in a monitor device path. Behind the marker `DISPLAY#`, in any case,
/// stand the hardware id and the instance id, each up to the next `#`; there is no id where the
/// marker, the second part or the text of a part is missing.
pub open spec fn device_path_id(path: Seq<char>) -> Option<Seq<char>> {
    match position(upper(path), "DISPLAY#"@) {
        None => None,
        Some(at) => {
            let rest = path.skip(at as int + "DISPLAY#"@.len() as int);
            let split = prefix_without(rest, '#');
            if split == rest.len() {
                None
            } else {
                let hardware = trimmed(rest.take(split as int));
                let tail = rest.skip(split as int + 1);
                let instance = trimmed(tail.take(prefix_without(tail, '#') as int));
                if hardware.len() == 0 || instance.len() == 0 {
                    None
                } else {
                    Some(pnp_id("DISPLAY\\"@ + hardware + "\\"@ + instance))
                }
            }
        },
    }
}

/// The canonical spelling of a plug-and-play id.
pub fn normalize_pnp_id(value: &str) -> (r: String)
    ensures
        r@ == pnp_id(value@),
{
    let chars = chars_of(value);
    let mut changed: Vec<char> = Vec::new();
    let mut i: usize = 0;
    while i < chars.len()
        invariant
            i <= chars@.len(),
            chars@ == value@,
            changed@ == Seq::new(
                i as nat,
                |k: int|
                    if chars@[k] == '#' || chars@[k] == '/' {
                        '\\'
                    } else {
                        chars@[k]
                    },
            ),
        decreases chars@.len() - i,
    {
        let c: char = chars[i];
        changed.push(if c == '#' || c == '/' { '\\' } else { c });
        i += 1;
    }
    let raised = upper_chars(&changed);
    assert(raised@ =~= pnp_id(value@));
    string_of(&raised)
}

/// The canonical spelling of a GDI device name.
pub fn normalize_gdi_name(value: &str) -> (r: String)
    ensures
        r@ == gdi_name(value@),
{
    let short = trim(value);
    to_upper(short.as_str())
}

/// The plug-and-play id in a monitor device path.
pub fn pnp_id_from_monitor_device_path(path: &str) -> (r: Option<String>)
    ensures
        match r {
            Some(id) => device_path_id(path@) == Some(id@),
            None => device_path_id(path@) is None,
        },
{
    let chars = chars_of(path);
    let count: usize = chars.len();
    let uppercase_path = upper_chars(&chars);
    let marker = chars_of("DISPLAY#");
    let at: usize = match find(&uppercase_path, &marker) {
        None => {
            return None;
        },
        Some(at) => at,
    };
    let start: usize = at + marker.len();
    let rest = &chars[start..count];
    assert(rest@ == chars@.skip(start as int));
    let split = count_before(rest, '#');
    if split == rest.len() {
        return None;
    }
    let hardware_part = &rest[0..split];
    assert(hardware_part@ == rest@.take(split as int));
    let hardware_id = trim_chars(hardware_part);
    let tail = &rest[split + 1..rest.len()];
    assert(tail@ == rest@.skip(split + 1));
    let end = count_before(tail, '#');
    let instance_part = &tail[0..end];
    assert(instance_part@ == tail@.take(end as int));
    let instance_id = trim_chars(instance_part);
    if hardware_id.len() == 0 || instance_id.len() == 0 {
        return None;
    }
    let hardware = string_of(hardware_id);
    let instance = string_of(instance_id);
    let joined = concat3("DISPLAY\\", hardware.as_str(), "\\");
    let full = concat(joined.as_str(), instance.as_str());
    Some(normalize_pnp_id(full.as_str()))
}

/// A canonical plug-and-play id is its own canonical spelling.
pub proof fn pnp_id_is_canonical(value: Seq<char>)
    ensures
        pnp_id(pnp_id(value)) == pnp_id(value),
{
    assert forall|i: int| 0 <= i < value.len() implies pnp_char(pnp_char(value[i])) == pnp_char(
        value[i],
    ) by {
        crate::wide::lemma_char_code(value[i]);
    }
    assert(pnp_id(pnp_id(value)) =~= pnp_id(value));
}

/// A canonical plug-and-play id holds neither separator and no ASCII lower-case letter.
pub proof fn pnp_id_has_no_separator(value: Seq<char>, i: int)
    requires
        0 <= i < value.len(),
    ensures
        pnp_id(value)[i] != '#',
        pnp_id(value)[i] != '/',
        !('a' <= pnp_id(value)[i] <= 'z'),
{
    crate::wide::lemma_char_code(value[i]);
}

/// Every id taken from a device path is in its canonical spelling.
pub proof fn device_path_id_is_canonical(path: Seq<char>)
    ensures
        device_path_id(path) matches Some(id) ==> pnp_id(id) == id,
{
    match device_path_id(path) {
        None => {},
        Some(id) => {
            let at = position(upper(path), "DISPLAY#"@)->Some_0;
            let rest = path.skip(at as int + "DISPLAY#"@.len() as int);
            let split = prefix_without(rest, '#');
            let hardware = trimmed(rest.take(split as int));
            let tail = rest.skip(split as int + 1);
            let instance = trimmed(tail.take(prefix_without(tail, '#') as int));
            pnp_id_is_canonical("DISPLAY\\"@ + hardware + "\\"@ + instance);
        },
    }
}

/// Whether the texts of a list stand in ascending order, none twice.
pub open spec fn ascending(list: Seq<Seq<char>>) -> bool {
    forall|i: int, j: int| 0 <= i < j < list.len() ==> before(#[trigger] list[i], #[trigger] list[j])
}

/// An ascending list with one more text in its place; a text that it holds is not added again.
pub open spec fn sorted_insert(list: Seq<Seq<char>>, text: Seq<char>) -> Seq<Seq<char>>
    decreases list.len(),
{
    if list.len() == 0 {
        seq![text]
    } else if list[0] == text {
        list
    } else if before(text, list[0]) {
        seq![text] + list
    } else {
        seq![list[0]] + sorted_insert(list.drop_first(), text)
    }
}

/// Inserting keeps a list ascending and adds exactly the one text.
pub proof fn sorted_insert_keeps_order(list: Seq<Seq<char>>, text: Seq<char>)
    requires
        ascending(list),
    ensures
        ascending(sorted_insert(list, text)),
        forall|t: Seq<char>| #[trigger]
            sorted_insert(list, text).contains(t) <==> list.contains(t) || t == text,
    decreases list.len(),
{
    let result = sorted_insert(list, text);
    if list.len() == 0 {
        assert(result[0] == text);
    } else if list[0] == text {
    } else if before(text, list[0]) {
        assert forall|i: int, j: int| 0 <= i < j < result.len() implies before(
            #[trigger] result[i],
            #[trigger] result[j],
        ) by {
            if i == 0 {
                if j > 1 {
                    lemma_before_transitive(text, list[0], list[j - 1]);
                }
            } else {
                assert(result[i] == list[i - 1] && result[j] == list[j - 1]);
            }
        }
        assert(result[0] == text);
        assert forall|t: Seq<char>| list.contains(t) implies #[trigger] result.contains(t) by {
            let k = choose|k: int| 0 <= k < list.len() && list[k] == t;
            assert(result[k + 1] == t);
        }
    } else {
        let tail = list.drop_first();
        assert forall|i: int, j: int| 0 <= i < j < tail.len() implies before(
            #[trigger] tail[i],
            #[trigger] tail[j],
        ) by {
            assert(tail[i] == list[i + 1] && tail[j] == list[j + 1]);
        }
        sorted_insert_keeps_order(tail, text);
        let rest = sorted_insert(tail, text);
        lemma_before_total(text, list[0]);
        assert forall|i: int, j: int| 0 <= i < j < result.len() implies before(
            #[trigger] result[i],
            #[trigger] result[j],
        ) by {
            assert(result[j] == rest[j - 1]);
            assert(rest.contains(rest[j - 1]));
            if i == 0 {
                if rest[j - 1] != text {
                    let k = choose|k: int| 0 <= k < tail.len() && tail[k] == rest[j - 1];
                    assert(tail[k] == list[k + 1]);
                }
            } else {
                assert(result[i] == rest[i - 1]);
            }
        }
        assert forall|t: Seq<char>| #[trigger] result.contains(t) implies list.contains(t) || t
            == text by {
            let k = choose|k: int| 0 <= k < result.len() && result[k] == t;
            if k == 0 {
                assert(list[0] == t);
            } else {
                assert(rest[k - 1] == t);
                assert(rest.contains(t));
                if t != text {
                    let m = choose|m: int| 0 <= m < tail.len() && tail[m] == t;
                    assert(list[m + 1] == t);
                }
            }
        }
        assert forall|t: Seq<char>| list.contains(t) || t == text implies #[trigger] result.contains(
            t,
        ) by {
            if t == list[0] {
                assert(result[0] == t);
            } else {
                if list.contains(t) {
                    let k = choose|k: int| 0 <= k < list.len() && list[k] == t;
                    assert(tail[k - 1] == t);
                    assert(tail.contains(t));
                }
                assert(rest.contains(t));
                let m = choose|m: int| 0 <= m < rest.len() && rest[m] == t;
                assert(result[m + 1] == t);
            }
        }
    }
}

/// Two ascending lists that hold the same texts are the same.
proof fn lemma_ascending_unique(a: Seq<Seq<char>>, b: Seq<Seq<char>>)
    requires
        ascending(a),
        ascending(b),
        forall|t: Seq<char>| #[trigger] a.contains(t) <==> b.contains(t),
    ensures
        a == b,
    decreases a.len(),
{
    if a.len() == 0 {
        if b.len() > 0 {
            assert(b.contains(b[0]));
            assert(a.contains(b[0]));
        }
        assert(a =~= b);
    } else {
        assert(a.contains(a[0]));
        assert(b.contains(a[0]));
        let i = choose|i: int| 0 <= i < b.len() && b[i] == a[0];
        assert(b.contains(b[0]));
        assert(a.contains(b[0]));
        let j = choose|j: int| 0 <= j < a.len() && a[j] == b[0];
        if i > 0 && j > 0 {
            assert(before(b[0], b[i]));
            assert(before(a[0], a[j]));
            lemma_before_transitive(a[0], b[0], a[0]);
            lemma_before_irreflexive(a[0]);
        }
        assert(a[0] == b[0]);
        lemma_tail_of_ascending(a);
        lemma_tail_of_ascending(b);
        assert forall|t: Seq<char>| #[trigger]
            a.drop_first().contains(t) <==> b.drop_first().contains(t) by {
            assert(a.contains(t) <==> b.contains(t));
        }
        lemma_ascending_unique(a.drop_first(), b.drop_first());
        assert(a =~= seq![a[0]] + a.drop_first());
        assert(b =~= seq![b[0]] + b.drop_first());
    }
}

/// The rest of an ascending list is ascending, and holds all texts but the first.
proof fn lemma_tail_of_ascending(list: Seq<Seq<char>>)
    requires
        list.len() > 0,
        ascending(list),
    ensures
        ascending(list.drop_first()),
        forall|t: Seq<char>| #[trigger]
            list.drop_first().contains(t) <==> list.contains(t) && t != list[0],
{
    let tail = list.drop_first();
    assert forall|i: int, j: int| 0 <= i < j < tail.len() implies before(
        #[trigger] tail[i],
        #[trigger] tail[j],
    ) by {
        assert(tail[i] == list[i + 1] && tail[j] == list[j + 1]);
    }
    assert forall|t: Seq<char>| #[trigger] tail.contains(t) <==> list.contains(t) && t
        != list[0] by {
        if tail.contains(t) {
            let k = choose|k: int| 0 <= k < tail.len() && tail[k] == t;
            assert(list[k + 1] == t);
            assert(before(list[0], list[k + 1]));
            lemma_before_irreflexive(t);
        }
        if list.contains(t) && t != list[0] {
            let k = choose|k: int| 0 <= k < list.len() && list[k] == t;
            assert(tail[k - 1] == t);
        }
    }
}

/// The ids of a display do not depend on the order in which they are added.
pub proof fn order_of_adding_does_not_matter(list: Seq<Seq<char>>, a: Seq<char>, b: Seq<char>)
    requires
        ascending(list),
    ensures
        sorted_insert(sorted_insert(list, a), b) == sorted_insert(sorted_insert(list, b), a),
{
    let with_a = sorted_insert(list, a);
    let with_b = sorted_insert(list, b);
    sorted_insert_keeps_order(list, a);
    sorted_insert_keeps_order(list, b);
    sorted_insert_keeps_order(with_a, b);
    sorted_insert_keeps_order(with_b, a);
    assert forall|t: Seq<char>| #[trigger]
        sorted_insert(with_a, b).contains(t) <==> sorted_insert(with_b, a).contains(t) by {
        assert(with_a.contains(t) <==> list.contains(t) || t == a);
        assert(with_b.contains(t) <==> list.contains(t) || t == b);
    }
    lemma_ascending_unique(sorted_insert(with_a, b), sorted_insert(with_b, a));
}

/// The active display paths: for each GDI device the monitors that show it.
pub struct ActiveDisplayPaths {
    pnp_by_gdi_name: StringHashMap<Vec<String>>,
    pnp_ids: StringHashSet,
    complete: bool,
    warnings: Vec<String>,
}

impl ActiveDisplayPaths {
    /// The ids listed under a canonical device name.
    pub closed spec fn listed(self, key: Seq<char>) -> Seq<Seq<char>> {
        if self.pnp_by_gdi_name@.contains_key(key) {
            views(self.pnp_by_gdi_name@[key]@)
        } else {
            seq![]
        }
    }

    /// The ids of the monitors that show a GDI device, in any spelling of its name.
    pub open spec fn targets(self, name: Seq<char>) -> Seq<Seq<char>> {
        self.listed(gdi_name(name))
    }

    /// The ids of all active monitors.
    pub closed spec fn ids(self) -> Set<Seq<char>> {
        self.pnp_ids@
    }

    /// Whether every active path could be inspected.
    pub closed spec fn completed(self) -> bool {
        self.complete
    }

    /// What went wrong with the paths that could not be inspected.
    pub closed spec fn warning_texts(self) -> Seq<Seq<char>> {
        views(self.warnings@)
    }

    /// Each list is ascending, and together the lists hold the active monitors.
    pub open spec fn wf(self) -> bool {
        &&& forall|key: Seq<char>| ascending(#[trigger] self.listed(key))
        &&& forall|id: Seq<char>| #[trigger]
            self.ids().contains(id) <==> exists|key: Seq<char>| #[trigger]
                self.listed(key).contains(id)
    }

    /// No paths, none of them known to be all.
    pub fn default() -> (r: Self)
        ensures
            r.wf(),
            forall|key: Seq<char>| #[trigger] r.listed(key) == Seq::<Seq<char>>::empty(),
            r.ids() == Set::<Seq<char>>::empty(),
            !r.completed(),
            r.warning_texts() == Seq::<Seq<char>>::empty(),
    {
        let r = ActiveDisplayPaths {
            pnp_by_gdi_name: StringHashMap::new(),
            pnp_ids: StringHashSet::new(),
            complete: false,
            warnings: Vec::new(),
        };
        assert forall|key: Seq<char>| #[trigger] r.listed(key) == Seq::<Seq<char>>::empty() by {}
        assert(r.warning_texts() =~= seq![]);
        r
    }

    /// The ids of the monitors that show a GDI device.
    pub fn pnp_ids_for_gdi_name(&self, name: &str) -> (r: &[String])
        ensures
            views(r@) == self.targets(name@),
    {
        let key = normalize_gdi_name(name);
        match self.pnp_by_gdi_name.get(key.as_str()) {
            Some(list) => list.as_slice(),
            None => {
                let none: &[String] = &[];
                assert(views(none@) =~= seq![]);
                none
            },
        }
    }

    /// Whether a monitor is active.
    pub fn contains_pnp_id(&self, id: &str) -> (r: bool)
        ensures
            r == self.ids().contains(id@),
    {
        self.pnp_ids.contains(id)
    }

    /// Whether every active path could be inspected.
    pub fn is_complete(&self) -> (r: bool)
        ensures
            r == self.completed(),
    {
        self.complete
    }

    /// What went wrong with the paths that could not be inspected.
    pub fn warnings(&self) -> (r: &Vec<String>)
        ensures
            views(r@) == self.warning_texts(),
    {
        &self.warnings
    }

    /// Adds a monitor to those that show a GDI device.
    pub fn add_path(&mut self, name: &str, id: String)
        requires
            old(self).wf(),
        ensures
            final(self).wf(),
            forall|key: Seq<char>| #[trigger]
                final(self).listed(key) == if key == gdi_name(name@) {
                    sorted_insert(old(self).listed(key), id@)
                } else {
                    old(self).listed(key)
                },
            final(self).ids() == old(self).ids().insert(id@),
            final(self).completed() == old(self).completed(),
            final(self).warning_texts() == old(self).warning_texts(),
    {
        let ghost before_call = *self;
        let key = normalize_gdi_name(name);
        let mut list: Vec<String> = match self.pnp_by_gdi_name.get(key.as_str()) {
            Some(list) => list.clone(),
            None => Vec::new(),
        };
        assert(views(list@) =~= before_call.listed(key@));
        let ghost text = id@;
        self.pnp_ids.insert(id.clone());
        insert_sorted(&mut list, id);
        self.pnp_by_gdi_name.insert(key, list);
        proof {
            sorted_insert_keeps_order(before_call.listed(key@), text);
            assert forall|k: Seq<char>| #[trigger] self.listed(k) == if k == key@ {
                sorted_insert(before_call.listed(k), text)
            } else {
                before_call.listed(k)
            } by {}
            assert forall|x: Seq<char>| #[trigger]
                self.ids().contains(x) <==> exists|k: Seq<char>| #[trigger]
                    self.listed(k).contains(x) by {
                if self.ids().contains(x) {
                    if x == text {
                        assert(self.listed(key@).contains(x));
                    } else {
                        assert(before_call.ids().contains(x));
                        let k = choose|k: Seq<char>| #[trigger] before_call.listed(k).contains(x);
                        assert(self.listed(k).contains(x));
                    }
                }
                if exists|k: Seq<char>| #[trigger] self.listed(k).contains(x) {
                    let k = choose|k: Seq<char>| #[trigger] self.listed(k).contains(x);
                    if x != text {
                        assert(before_call.listed(k).contains(x));
                        assert(before_call.ids().contains(x));
                    }
                }
            }
        }
    }
}

/// The flag and the warnings are of no account to the invariant of the lists.
proof fn lemma_wf_of_lists(a: ActiveDisplayPaths, b: ActiveDisplayPaths)
    requires
        a.wf(),
        a.pnp_by_gdi_name == b.pnp_by_gdi_name,
        a.pnp_ids == b.pnp_ids,
    ensures
        b.wf(),
        forall|key: Seq<char>| #[trigger] b.listed(key) == a.listed(key),
        b.ids() == a.ids(),
{
    assert forall|key: Seq<char>| #[trigger] b.listed(key) == a.listed(key) by {}
    assert forall|id: Seq<char>| #[trigger]
        b.ids().contains(id) <==> exists|key: Seq<char>| #[trigger]
            b.listed(key).contains(id) by {
        assert(a.ids().contains(id) == b.ids().contains(id));
        if b.ids().contains(id) {
            let key = choose|key: Seq<char>| #[trigger] a.listed(key).contains(id);
            assert(b.listed(key).contains(id));
        }
        if exists|key: Seq<char>| #[trigger] b.listed(key).contains(id) {
            let key = choose|key: Seq<char>| #[trigger] b.listed(key).contains(id);
            assert(a.listed(key).contains(id));
        }
    }
}

/// Inserts a text into an ascending list unless the list holds it.
fn insert_sorted(list: &mut Vec<String>, text: String)
    ensures
        views(final(list)@) == sorted_insert(views(old(list)@), text@),
{
    let ghost all = views(list@);
    let mut i: usize = 0;
    assert(all.skip(0) == all);
    assert(all.take(0) + sorted_insert(all, text@) =~= sorted_insert(all, text@));
    while i < list.len()
        invariant
            i <= list@.len(),
            all == views(list@),
            *list == *old(list),
            sorted_insert(all, text@) == all.take(i as int) + sorted_insert(
                all.skip(i as int),
                text@,
            ),
        decreases list@.len() - i,
    {
        let ghost rest = all.skip(i as int);
        if list[i] == text {
            assert(all.take(i as int) + rest =~= all);
            return;
        }
        if is_before(text.as_str(), list[i].as_str()) {
            list.insert(i, text);
            assert(views(list@) =~= all.take(i as int) + (seq![text@] + rest));
            return;
        }
        assert(rest.drop_first() == all.skip(i + 1));
        assert(all.take(i as int) + (seq![rest[0]] + sorted_insert(rest.drop_first(), text@))
            =~= all.take(i + 1) + sorted_insert(all.skip(i + 1), text@));
        i += 1;
    }
    list.push(text);
    assert(views(list@) =~= all.take(i as int) + seq![text@]);
}

/// The status of a call that succeeded.
pub const ERROR_SUCCESS: u32 = 0;

/// The status of a query whose buffers had become too small.
pub const ERROR_INSUFFICIENT_BUFFER: u32 = 122;

/// How often the display configuration is asked for before it counts as unstable.
pub const QUERY_ATTEMPTS: u32 = 3;

/// What to do after the display configuration was asked for.
pub enum QueryStep {
    /// Ask again, the buffer sizes first.
    Retry,
    /// Use the paths that came back.
    Done,
    /// Give up.
    Failed(MonitorError),
}

/// The step after a query that returned `status`, with `attempts` queries made before it.
pub open spec fn query_step(attempts: nat, status: u32) -> Result<bool, ErrorModel> {
    if status == ERROR_INSUFFICIENT_BUFFER {
        if attempts + 1 < QUERY_ATTEMPTS {
            Ok(false)
        } else {
            Err(
                ErrorModel::Win32 {
                    context: "QueryDisplayConfig remained unstable"@,
                    code: ERROR_INSUFFICIENT_BUFFER,
                },
            )
        }
    } else if status != ERROR_SUCCESS {
        Err(ErrorModel::Win32 { context: "QueryDisplayConfig failed"@, code: status })
    } else {
        Ok(true)
    }
}

/// The query for the active paths. The configuration may change between asking for the buffer
/// sizes and asking for the paths, so the two questions are repeated a few times.
pub struct PathQuery {
    attempts: u32,
}

impl PathQuery {
    /// How many queries came back with buffers that were too small.
    pub closed spec fn attempts(self) -> nat {
        self.attempts as nat
    }

    /// Whether another query may be made.
    pub open spec fn wf(self) -> bool {
        self.attempts() < QUERY_ATTEMPTS
    }

    /// A query that has not been made yet.
    pub fn new() -> (r: Self)
        ensures
            r.wf(),
            r.attempts() == 0,
    {
        PathQuery { attempts: 0 }
    }

    /// Whether the paths can be asked for, after the buffer sizes were.
    pub fn buffer_sizes(&self, status: u32) -> (r: Result<(), MonitorError>)
        ensures
            match r {
                Ok(()) => status == ERROR_SUCCESS,
                Err(error) => status != ERROR_SUCCESS && error@ == (ErrorModel::Win32 {
                    context: "GetDisplayConfigBufferSizes failed"@,
                    code: status,
                }),
            },
    {
        if status != ERROR_SUCCESS {
            return Err(win32_status("GetDisplayConfigBufferSizes failed", status));
        }
        Ok(())
    }

    /// What to do after the paths were asked for. At most three such questions are put.
    pub fn paths(&mut self, status: u32) -> (r: QueryStep)
        requires
            old(self).wf(),
        ensures
            match r {
                QueryStep::Retry => {
                    &&& query_step(old(self).attempts(), status) == Ok::<bool, ErrorModel>(false)
                    &&& final(self).attempts() == old(self).attempts() + 1
                    &&& final(self).wf()
                },
                QueryStep::Done => {
                    &&& query_step(old(self).attempts(), status) == Ok::<bool, ErrorModel>(true)
                    &&& *final(self) == *old(self)
                },
                QueryStep::Failed(error) => {
                    &&& query_step(old(self).attempts(), status) == Err::<bool, ErrorModel>(error@)
                    &&& *final(self) == *old(self)
                },
            },
    {
        if status == ERROR_INSUFFICIENT_BUFFER {
            if self.attempts + 1 < QUERY_ATTEMPTS {
                self.attempts = self.attempts + 1;
                return QueryStep::Retry;
            }
            return QueryStep::Failed(
                win32_status("QueryDisplayConfig remained unstable", ERROR_INSUFFICIENT_BUFFER),
            );
        }
        if status != ERROR_SUCCESS {
            return QueryStep::Failed(win32_status("QueryDisplayConfig failed", status));
        }
        QueryStep::Done
    }
}

/// What the system says about the two ends of an active path. Where the source could not be
/// asked for, what stands for the target is not looked at.
pub struct PathProbe {
    pub source_id: u32,
    pub source_status: i32,
    pub source_name: Vec<u16>,
    pub target_id: u32,
    pub target_status: i32,
    pub target_path: Vec<u16>,
}

/// The status of a device query as an unsigned code.
pub open spec fn status_code(status: i32) -> u32 {
    status as u32
}

/// The GDI device name at the source of a path.
pub open spec fn source_result(status: i32, name: Seq<u16>, id: u32) -> Result<
    Seq<char>,
    ErrorModel,
> {
    if status != 0 {
        Err(
            ErrorModel::Win32 {
                context: "DisplayConfigGetDeviceInfo source query failed"@,
                code: status_code(status),
            },
        )
    } else {
        match terminated_text(name) {
            Some(text) => Ok(text),
            None => Err(
                ErrorModel::InvalidData {
                    context: "invalid active display source name"@,
                    details: "source id "@ + decimal(id as nat),
                },
            ),
        }
    }
}

/// The plug-and-play id in a zero-terminated monitor device path.
pub open spec fn target_id_text(path: Seq<u16>) -> Option<Seq<char>> {
    match terminated_text(path) {
        Some(text) => device_path_id(text),
        None => None,
    }
}

/// The plug-and-play id at the target of a path.
pub open spec fn target_result(status: i32, path: Seq<u16>, id: u32) -> Result<
    Seq<char>,
    ErrorModel,
> {
    if status != 0 {
        Err(
            ErrorModel::Win32 {
                context: "DisplayConfigGetDeviceInfo target query failed"@,
                code: status_code(status),
            },
        )
    } else {
        match target_id_text(path) {
            Some(text) => Ok(text),
            None => Err(
                ErrorModel::InvalidData {
                    context: "invalid active monitor device path"@,
                    details: "target id "@ + decimal(id as nat),
                },
            ),
        }
    }
}

/// The GDI device name and the plug-and-play id of a path.
pub open spec fn path_result(probe: PathProbe) -> Result<(Seq<char>, Seq<char>), ErrorModel> {
    match source_result(probe.source_status, probe.source_name@, probe.source_id) {
        Err(error) => Err(error),
        Ok(name) => match target_result(
            probe.target_status,
            probe.target_path@,
            probe.target_id,
        ) {
            Err(error) => Err(error),
            Ok(id) => Ok((name, id)),
        },
    }
}

/// The GDI device name at the source of a path.
pub fn active_display_gdi_name(status: i32, name: &[u16], id: u32) -> (r: Result<
    String,
    MonitorError,
>)
    ensures
        match r {
            Ok(text) => source_result(status, name@, id) == Ok::<Seq<char>, ErrorModel>(text@),
            Err(error) => source_result(status, name@, id) == Err::<Seq<char>, ErrorModel>(error@),
        },
{
    if status != 0 {
        return Err(
            win32_status(
                "DisplayConfigGetDeviceInfo source query failed",
                #[verifier::truncate]
                (status as u32),
            ),
        );
    }
    match wide_to_string(name) {
        Some(text) => Ok(text),
        None => {
            let number = decimal_string(id as u64);
            Err(
                MonitorError::InvalidData {
                    context: "invalid active display source name",
                    details: concat("source id ", number.as_str()),
                },
            )
        },
    }
}

/// The plug-and-play id in a zero-terminated monitor device path.
pub fn pnp_id_from_wide_path(path: &[u16]) -> (r: Option<String>)
    ensures
        match r {
            Some(id) => target_id_text(path@) == Some(id@),
            None => target_id_text(path@) is None,
        },
{
    match wide_to_string(path) {
        Some(text) => pnp_id_from_monitor_device_path(text.as_str()),
        None => None,
    }
}

/// The plug-and-play id at the target of a path.
pub fn active_display_pnp_id(status: i32, path: &[u16], id: u32) -> (r: Result<
    String,
    MonitorError,
>)
    ensures
        match r {
            Ok(text) => target_result(status, path@, id) == Ok::<Seq<char>, ErrorModel>(text@),
            Err(error) => target_result(status, path@, id) == Err::<Seq<char>, ErrorModel>(error@),
        },
{
    if status != 0 {
        return Err(
            win32_status(
                "DisplayConfigGetDeviceInfo target query failed",
                #[verifier::truncate]
                (status as u32),
            ),
        );
    }
    match pnp_id_from_wide_path(path) {
        Some(text) => Ok(text),
        None => {
            let number = decimal_string(id as u64);
            Err(
                MonitorError::InvalidData {
                    context: "invalid active monitor device path",
                    details: concat("target id ", number.as_str()),
                },
            )
        },
    }
}

/// The GDI device name and the plug-and-play id of a path.
pub fn active_display_path(probe: &PathProbe) -> (r: Result<(String, String), MonitorError>)
    ensures
        match r {
            Ok((name, id)) => path_result(*probe) == Ok::<(Seq<char>, Seq<char>), ErrorModel>(
                (name@, id@),
            ),
            Err(error) => path_result(*probe) == Err::<(Seq<char>, Seq<char>), ErrorModel>(error@),
        },
{
    let name = match active_display_gdi_name(
        probe.source_status,
        &probe.source_name,
        probe.source_id,
    ) {
        Ok(name) => name,
        Err(error) => {
            return Err(error);
        },
    };
    match active_display_pnp_id(probe.target_status, &probe.target_path, probe.target_id) {
        Ok(id) => Ok((name, id)),
        Err(error) => Err(error),
    }
}

/// The ids that a list of paths gives for a canonical device name.
pub open spec fn gathered(probes: Seq<PathProbe>, key: Seq<char>) -> Seq<Seq<char>>
    decreases probes.len(),
{
    if probes.len() == 0 {
        seq![]
    } else {
        let earlier = gathered(probes.drop_last(), key);
        match path_result(probes.last()) {
            Ok((name, id)) => if gdi_name(name) == key {
                sorted_insert(earlier, id)
            } else {
                earlier
            },
            Err(_) => earlier,
        }
    }
}

/// The ids of all the paths of a list.
pub open spec fn gathered_ids(probes: Seq<PathProbe>) -> Set<Seq<char>>
    decreases probes.len(),
{
    if probes.len() == 0 {
        Set::empty()
    } else {
        let earlier = gathered_ids(probes.drop_last());
        match path_result(probes.last()) {
            Ok((name, id)) => earlier.insert(id),
            Err(_) => earlier,
        }
    }
}

/// What went wrong with the paths of a list.
pub open spec fn path_complaints(probes: Seq<PathProbe>) -> Seq<Seq<char>>
    decreases probes.len(),
{
    if probes.len() == 0 {
        seq![]
    } else {
        let earlier = path_complaints(probes.drop_last());
        match path_result(probes.last()) {
            Ok(_) => earlier,
            Err(error) => earlier.push(
                "failed to inspect active display path: "@ + error.text(),
            ),
        }
    }
}

/// The active display paths, from what the system says about each. They are complete where
/// every one of them could be inspected.
pub fn active_display_paths(paths: Result<Vec<PathProbe>, MonitorError>) -> (r: Result<
    ActiveDisplayPaths,
    MonitorError,
>)
    ensures
        match (paths, r) {
            (Ok(probes), Ok(result)) => {
                &&& result.wf()
                &&& forall|key: Seq<char>| #[trigger]
                    result.listed(key) == gathered(probes@, key)
                &&& result.ids() == gathered_ids(probes@)
                &&& result.completed() == (forall|i: int|
                    0 <= i < probes@.len() ==> path_result(#[trigger] probes@[i]) is Ok)
                &&& result.warning_texts() == path_complaints(probes@)
            },
            (Err(error), Err(passed_on)) => passed_on@ == error@,
            _ => false,
        },
{
    let probes = match paths {
        Ok(probes) => probes,
        Err(error) => {
            return Err(error);
        },
    };
    let mut result = ActiveDisplayPaths::default();
    let ghost empty = result;
    result.complete = true;
    proof {
        lemma_wf_of_lists(empty, result);
    }
    let mut i: usize = 0;
    while i < probes.len()
        invariant
            i <= probes@.len(),
            result.wf(),
            forall|key: Seq<char>| #[trigger]
                result.listed(key) == gathered(probes@.take(i as int), key),
            result.ids() == gathered_ids(probes@.take(i as int)),
            result.completed() == (forall|k: int|
                0 <= k < i ==> path_result(#[trigger] probes@[k]) is Ok),
            result.warning_texts() == path_complaints(probes@.take(i as int)),
        decreases probes@.len() - i,
    {
        let ghost previous = result;
        assert(probes@.take(i + 1).drop_last() == probes@.take(i as int));
        match active_display_path(&probes[i]) {
            Ok((name, id)) => {
                result.add_path(name.as_str(), id);
            },
            Err(error) => {
                let message = error.to_string();
                result.complete = false;
                result.warnings.push(
                    concat("failed to inspect active display path: ", message.as_str()),
                );
                assert(result.warning_texts() =~= path_complaints(probes@.take(i + 1)));
                proof {
                    lemma_wf_of_lists(previous, result);
                }
                assert(path_result(probes@[i as int]) is Err);
            },
        }
        i += 1;
    }
    assert(probes@.take(i as int) == probes@);
    Ok(result)
}

/// Each id that some path gives for a device is listed under the device, and no other is.
pub proof fn targets_are_those_of_the_paths(probes: Seq<PathProbe>, key: Seq<char>, id: Seq<char>)
    ensures
        ascending(gathered(probes, key)),
        gathered(probes, key).contains(id) <==> exists|i: int|
            0 <= i < probes.len() && (path_result(#[trigger] probes[i]) matches Ok((name, target))
                && gdi_name(name) == key && target == id),
    decreases probes.len(),
{
    if probes.len() > 0 {
        let earlier = probes.drop_last();
        targets_are_those_of_the_paths(earlier, key, id);
        sorted_insert_keeps_order(gathered(earlier, key), id);
        let last = path_result(probes.last());
        match last {
            Ok((name, target)) => {
                if gdi_name(name) == key {
                    sorted_insert_keeps_order(gathered(earlier, key), target);
                    assert(gathered(probes, key).contains(id) <==> gathered(earlier, key).contains(
                        id,
                    ) || id == target);
                }
            },
            Err(_) => {},
        }
        if exists|i: int|
            0 <= i < earlier.len() && (path_result(#[trigger] earlier[i]) matches Ok((name, target))
                && gdi_name(name) == key && target == id) {
            let i = choose|i: int|
                0 <= i < earlier.len() && (path_result(#[trigger] earlier[i]) matches Ok(
                    (name, target),
                ) && gdi_name(name) == key && target == id);
            assert(probes[i] == earlier[i]);
        }
        if exists|i: int|
            0 <= i < probes.len() && (path_result(#[trigger] probes[i]) matches Ok((name, target))
                && gdi_name(name) == key && target == id) {
            let i = choose|i: int|
                0 <= i < probes.len() && (path_result(#[trigger] probes[i]) matches Ok(
                    (name, target),
                ) && gdi_name(name) == key && target == id);
            if i < earlier.len() {
                assert(probes[i] == earlier[i]);
            }
        }
    }
}

} // verus!

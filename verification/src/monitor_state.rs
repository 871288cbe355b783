//! What the popup shows of the monitors, and the changes that wait to be applied.
use vstd::prelude::*;

use slint::{Model, VecModel};

use crate::monitor_control::{
    clamp_percent, lemma_place_of, lemma_place_of_ids, percent_of, place_of, MonitorError,
    MonitorId, MonitorModel, MonitorSnapshot,
};
use crate::monitor_hardware::windows::{
    monitors_after, monitors_after_all, outcome_of, ApplyOutcome, ApplyReport, BrightnessUpdate,
    OutcomeModel,
};
use crate::text::{concat, concat3, views};

verus! {

/// A row of the popup.
#[derive(Debug)]
pub struct MonitorEntry {
    pub id: String,
    pub name: String,
    pub brightness: i32,
}

impl View for MonitorEntry {
    type V = (Seq<char>, Seq<char>, i32);

    open spec fn view(&self) -> (Seq<char>, Seq<char>, i32) {
        (self.id@, self.name@, self.brightness)
    }
}

impl Clone for MonitorEntry {
    fn clone(&self) -> (r: Self)
        ensures
            r == *self,
    {
        MonitorEntry {
            id: self.id.clone(),
            name: self.name.clone(),
            brightness: self.brightness,
        }
    }
}

/// What the rows of a list say.
pub open spec fn entry_rows(entries: Seq<MonitorEntry>) -> Seq<(Seq<char>, Seq<char>, i32)> {
    Seq::new(entries.len(), |i: int| entries[i]@)
}

/// Slint's model of a list of rows. Slint lets a model be changed through a shared reference; the
/// functions below that change one take it by a unique reference, and nothing else changes it.
#[verifier::external_type_specification]
#[verifier::external_body]
#[verifier::reject_recursive_types(T)]
pub struct ExVecModel<T>(VecModel<T>);

/// The rows that a Slint model holds: the id, the name and the brightness of each.
pub uninterp spec fn model_rows(model: VecModel<MonitorEntry>) -> Seq<(Seq<char>, Seq<char>, i32)>;

/// `VecModel::from` makes a model that holds the rows of a vector, in their order.
#[verifier::external_body]
fn model_from(entries: Vec<MonitorEntry>) -> (r: VecModel<MonitorEntry>)
    ensures
        model_rows(r) == entry_rows(entries@),
{
    VecModel::from(entries)
}

/// `VecModel::set_vec` replaces all rows by those of a vector, in their order.
#[verifier::external_body]
fn set_vec(model: &mut VecModel<MonitorEntry>, entries: Vec<MonitorEntry>)
    ensures
        model_rows(*final(model)) == entry_rows(entries@),
{
    model.set_vec(entries)
}

/// `VecModel::row_count` is the number of rows.
#[verifier::external_body]
fn row_count(model: &VecModel<MonitorEntry>) -> (r: usize)
    ensures
        r == model_rows(*model).len(),
{
    model.row_count()
}

/// `VecModel::row_data` is a copy of a row, or nothing where there is no such row.
#[verifier::external_body]
fn row_data(model: &VecModel<MonitorEntry>, row: usize) -> (r: Option<MonitorEntry>)
    ensures
        match r {
            Some(entry) => row < model_rows(*model).len() && entry@ == model_rows(
                *model,
            )[row as int],
            None => row >= model_rows(*model).len(),
        },
{
    model.row_data(row)
}

/// `VecModel::set_row_data` replaces a row, and does nothing where there is no such row.
#[verifier::external_body]
fn set_row_data(model: &mut VecModel<MonitorEntry>, row: usize, entry: MonitorEntry)
    ensures
        model_rows(*final(model)) == if row < model_rows(*old(model)).len() {
            model_rows(*old(model)).update(row as int, entry@)
        } else {
            model_rows(*old(model))
        },
{
    model.set_row_data(row, entry)
}

/// The place of the first row with the given id.
pub open spec fn row_of(rows: Seq<(Seq<char>, Seq<char>, i32)>, id: Seq<char>) -> Option<int>
    decreases rows.len(),
{
    if rows.len() == 0 {
        None
    } else {
        match row_of(rows.drop_last(), id) {
            Some(row) => Some(row),
            None => if rows.last().0 == id {
                Some(rows.len() - 1)
            } else {
                None
            },
        }
    }
}

/// The place of an id is that of the first row with it, and there is none without.
pub proof fn lemma_row_of(rows: Seq<(Seq<char>, Seq<char>, i32)>, id: Seq<char>)
    ensures
        match row_of(rows, id) {
            Some(row) => 0 <= row < rows.len() && rows[row].0 == id && forall|k: int|
                0 <= k < row ==> (#[trigger] rows[k]).0 != id,
            None => forall|k: int| 0 <= k < rows.len() ==> (#[trigger] rows[k]).0 != id,
        },
    decreases rows.len(),
{
    if rows.len() > 0 {
        let earlier = rows.drop_last();
        lemma_row_of(earlier, id);
        match row_of(earlier, id) {
            Some(row) => {
                assert(earlier[row] == rows[row]);
                assert forall|k: int| 0 <= k < row implies (#[trigger] rows[k]).0 != id by {
                    assert(earlier[k] == rows[k]);
                }
            },
            None => {
                assert forall|k: int| 0 <= k < rows.len() - 1 implies (#[trigger] rows[k]).0
                    != id by {
                    assert(earlier[k] == rows[k]);
                }
            },
        }
    }
}

/// The place of an id does not depend on what the rows show.
pub proof fn lemma_row_of_ids(
    a: Seq<(Seq<char>, Seq<char>, i32)>,
    b: Seq<(Seq<char>, Seq<char>, i32)>,
    id: Seq<char>,
)
    requires
        a.len() == b.len(),
        forall|k: int| 0 <= k < a.len() ==> (#[trigger] a[k]).0 == b[k].0,
    ensures
        row_of(a, id) == row_of(b, id),
    decreases a.len(),
{
    if a.len() > 0 {
        assert forall|k: int| 0 <= k < a.len() - 1 implies (#[trigger] a.drop_last()[k]).0
            == b.drop_last()[k].0 by {
            assert(a[k].0 == b[k].0);
        }
        lemma_row_of_ids(a.drop_last(), b.drop_last(), id);
        assert(a[a.len() - 1].0 == b[b.len() - 1].0);
    }
}

/// The brightness that updates ask for, by id.
pub open spec fn requested(updates: Seq<BrightnessUpdate>) -> Map<Seq<char>, i32>
    decreases updates.len(),
{
    if updates.len() == 0 {
        Map::empty()
    } else {
        requested(updates.drop_last()).insert(updates.last().id@, updates.last().value)
    }
}

/// Whether no two updates are for the same monitor.
pub open spec fn one_for_each(updates: Seq<BrightnessUpdate>) -> bool {
    forall|i: int, j: int|
        0 <= i < j < updates.len() ==> (#[trigger] updates[i]).id@ != (#[trigger] updates[j]).id@
}

/// Each update of a list with one for each monitor is what is asked for that monitor.
pub proof fn lemma_requested(updates: Seq<BrightnessUpdate>)
    requires
        one_for_each(updates),
    ensures
        forall|i: int|
            0 <= i < updates.len() ==> requested(updates).dom().contains(
                (#[trigger] updates[i]).id@,
            ) && requested(updates)[updates[i].id@] == updates[i].value,
        forall|id: Seq<char>| #[trigger]
            requested(updates).dom().contains(id) ==> exists|i: int|
                0 <= i < updates.len() && (#[trigger] updates[i]).id@ == id,
    decreases updates.len(),
{
    if updates.len() > 0 {
        let earlier = updates.drop_last();
        assert forall|i: int, j: int| 0 <= i < j < earlier.len() implies (
        #[trigger] earlier[i]).id@ != (#[trigger] earlier[j]).id@ by {
            assert(updates[i].id@ != updates[j].id@);
        }
        lemma_requested(earlier);
        assert forall|i: int| 0 <= i < updates.len() implies requested(updates).dom().contains(
            (#[trigger] updates[i]).id@,
        ) && requested(updates)[updates[i].id@] == updates[i].value by {
            if i < earlier.len() {
                assert(earlier[i] == updates[i]);
                assert(updates[i].id@ != updates[updates.len() - 1].id@);
            }
        }
        assert forall|id: Seq<char>| #[trigger]
            requested(updates).dom().contains(id) implies exists|i: int|
            0 <= i < updates.len() && (#[trigger] updates[i]).id@ == id by {
            if id == updates.last().id@ {
                assert(updates[updates.len() - 1].id@ == id);
            } else {
                assert(requested(earlier).dom().contains(id));
                let i = choose|i: int| 0 <= i < earlier.len() && (#[trigger] earlier[i]).id@ == id;
                assert(updates[i].id@ == id);
            }
        }
    }
}

/// The rows of the popup, and the changes that wait to be applied.
pub struct StateModel {
    pub rows: Seq<(Seq<char>, Seq<char>, i32)>,
    pub pending: Map<Seq<char>, i32>,
}

impl StateModel {
    /// What waits to be applied to a monitor is what the monitor's row shows.
    pub open spec fn wf(self) -> bool {
        forall|id: Seq<char>| #[trigger]
            self.pending.dom().contains(id) ==> (row_of(self.rows, id) matches Some(row)
                && self.rows[row].2 == self.pending[id])
    }

    /// The state after one row was changed.
    pub open spec fn with_row(self, row: int, value: i32) -> StateModel {
        StateModel {
            rows: self.rows.update(row, (self.rows[row].0, self.rows[row].1, value)),
            pending: self.pending.insert(self.rows[row].0, value),
        }
    }

    /// The state after the first rows were changed.
    pub open spec fn with_rows(self, count: nat, value: i32) -> StateModel
        decreases count,
    {
        if count == 0 {
            self
        } else {
            self.with_rows((count - 1) as nat, value).with_row(count - 1, value)
        }
    }

    /// The state after a brightness was chosen for a monitor, or for all.
    pub open spec fn chosen(self, id: Seq<char>, value: int, sync_all: bool) -> StateModel {
        let value = clamp_percent(value) as i32;
        if sync_all {
            self.with_rows(self.rows.len(), value)
        } else {
            match row_of(self.rows, id) {
                Some(row) => self.with_row(row, value),
                None => self,
            }
        }
    }

    /// The state after what came of an update is known: where the update failed and the row
    /// still shows what was asked for, it shows what the monitor has again, unless another
    /// change waits.
    pub open spec fn reconciled(self, outcome: OutcomeModel) -> StateModel {
        if outcome.error is None || self.pending.dom().contains(outcome.id) {
            self
        } else {
            match (row_of(self.rows, outcome.id), outcome.effective) {
                (Some(row), Some(effective)) => if self.rows[row].2 == outcome.requested {
                    StateModel {
                        rows: self.rows.update(
                            row,
                            (self.rows[row].0, self.rows[row].1, effective),
                        ),
                        ..self
                    }
                } else {
                    self
                },
                _ => self,
            }
        }
    }

    /// The state after what came of a list of updates is known.
    pub open spec fn reconciled_all(self, outcomes: Seq<ApplyOutcome>) -> StateModel
        decreases outcomes.len(),
    {
        if outcomes.len() == 0 {
            self
        } else {
            self.reconciled_all(outcomes.drop_last()).reconciled(outcomes.last()@)
        }
    }
}

/// The messages about the updates that failed.
pub open spec fn failure_texts(outcomes: Seq<ApplyOutcome>) -> Seq<Seq<char>>
    decreases outcomes.len(),
{
    if outcomes.len() == 0 {
        seq![]
    } else {
        let earlier = failure_texts(outcomes.drop_last());
        match outcomes.last()@.error {
            Some(error) => earlier.push(
                "failed to apply brightness for monitor "@ + outcomes.last()@.id + ": "@ + error,
            ),
            None => earlier,
        }
    }
}

/// The rows that snapshots give.
pub open spec fn snapshot_rows(snapshots: Seq<MonitorSnapshot>) -> Seq<
    (Seq<char>, Seq<char>, i32),
> {
    Seq::new(
        snapshots.len(),
        |i: int| (snapshots[i].id@, snapshots[i].name@, snapshots[i].brightness),
    )
}

/// The rows of the popup, and the changes that wait to be applied.
pub struct MonitorState {
    model: VecModel<MonitorEntry>,
    pending: Vec<BrightnessUpdate>,
}

impl View for MonitorState {
    type V = StateModel;

    closed spec fn view(&self) -> StateModel {
        StateModel { rows: model_rows(self.model), pending: requested(self.pending@) }
    }
}

impl MonitorState {
    /// No two changes that wait are for the same monitor, and each is what the row shows.
    pub closed spec fn wf(self) -> bool {
        one_for_each(self.pending@) && self@.wf()
    }

    /// What waits to be applied to a monitor is what the monitor's row shows.
    pub proof fn pending_changes_are_shown(self)
        requires
            self.wf(),
        ensures
            self@.wf(),
    {
    }

    /// No rows and no changes.
    pub fn new() -> (r: Self)
        ensures
            r.wf(),
            r@ == (StateModel { rows: seq![], pending: Map::empty() }),
    {
        let r = MonitorState { model: model_from(Vec::new()), pending: Vec::new() };
        assert(r@.rows =~= seq![]);
        r
    }

    /// Slint's model of the rows.
    pub fn model(&self) -> (r: &VecModel<MonitorEntry>)
        ensures
            model_rows(*r) == self@.rows,
    {
        &self.model
    }

    /// Shows the monitors of a list. What waited to be applied is given up.
    pub fn replace_snapshots(&mut self, snapshots: Vec<MonitorSnapshot>)
        ensures
            final(self).wf(),
            final(self)@ == (StateModel {
                rows: snapshot_rows(snapshots@),
                pending: Map::empty(),
            }),
    {
        let mut entries: Vec<MonitorEntry> = Vec::new();
        let mut i: usize = 0;
        while i < snapshots.len()
            invariant
                i <= snapshots@.len(),
                entry_rows(entries@) == snapshot_rows(snapshots@).take(i as int),
            decreases snapshots@.len() - i,
        {
            let ghost earlier = entry_rows(entries@);
            let monitor = &snapshots[i];
            let entry = MonitorEntry {
                id: monitor.id.to_ui().to_owned(),
                name: monitor.name.clone(),
                brightness: monitor.brightness,
            };
            assert(entry_rows(entries@.push(entry)) =~= earlier.push(entry@));
            entries.push(entry);
            assert(entry_rows(entries@) =~= snapshot_rows(snapshots@).take(i + 1));
            i += 1;
        }
        assert(entry_rows(entries@) =~= snapshot_rows(snapshots@));
        self.pending = Vec::new();
        set_vec(&mut self.model, entries);
    }

    /// Gives up what waits to be applied.
    pub fn discard_pending(&mut self)
        ensures
            final(self).wf(),
            final(self)@ == (StateModel { pending: Map::empty(), ..old(self)@ }),
    {
        self.pending = Vec::new();
    }

    /// The place of the first row with the given id.
    fn row_for_monitor(&self, monitor_id: &str) -> (r: Option<usize>)
        ensures
            match r {
                Some(row) => row_of(self@.rows, monitor_id@) == Some(row as int),
                None => row_of(self@.rows, monitor_id@) is None,
            },
    {
        let ghost rows = self@.rows;
        let wanted = monitor_id.to_owned();
        let count: usize = row_count(&self.model);
        let mut row: usize = 0;
        while row < count
            invariant
                row <= count,
                rows == model_rows(self.model),
                rows.len() == count,
                wanted@ == monitor_id@,
                row_of(rows.take(row as int), monitor_id@) is None,
            decreases count - row,
        {
            assert(rows.take(row + 1).drop_last() =~= rows.take(row as int));
            match row_data(&self.model, row) {
                Some(entry) => {
                    if entry.id == wanted {
                        assert(row_of(rows.take(row + 1), monitor_id@) == Some(row as int));
                        proof {
                            lemma_row_of_prefix(rows, monitor_id@, row + 1);
                        }
                        return Some(row);
                    }
                },
                None => {},
            }
            row += 1;
        }
        assert(rows.take(row as int) =~= rows);
        None
    }

    /// Shows a brightness in a row and lets it wait to be applied.
    fn set_row_brightness(&mut self, row: usize, value: i32)
        requires
            one_for_each(old(self).pending@),
            row < old(self)@.rows.len(),
        ensures
            one_for_each(final(self).pending@),
            final(self)@ == old(self)@.with_row(row as int, value),
    {
        match row_data(&self.model, row) {
            Some(entry) => {
                let mut changed = entry;
                changed.brightness = value;
                let monitor_id = MonitorId::from_ui(changed.id.as_str());
                set_row_data(&mut self.model, row, changed);
                insert_pending(&mut self.pending, monitor_id, value);
            },
            None => {},
        }
    }

    /// Shows a brightness for a monitor, or for all, and lets it wait to be applied.
    pub fn update_brightness(&mut self, monitor_id: &str, value: i32, sync_all: bool)
        requires
            old(self).wf(),
        ensures
            final(self).wf(),
            final(self)@ == old(self)@.chosen(monitor_id@, value as int, sync_all),
    {
        let ghost start = self@;
        let value: i32 = percent_of(value);
        if sync_all {
            let count: usize = row_count(&self.model);
            let mut row: usize = 0;
            while row < count
                invariant
                    row <= count,
                    count == start.rows.len(),
                    one_for_each(self.pending@),
                    self@ == start.with_rows(row as nat, value),
                decreases count - row,
            {
                proof {
                    lemma_with_rows(start, row as nat, value);
                }
                self.set_row_brightness(row, value);
                row += 1;
            }
            proof {
                lemma_with_all_rows(start, value);
            }
        } else {
            match self.row_for_monitor(monitor_id) {
                Some(row) => {
                    proof {
                        lemma_row_of(start.rows, monitor_id@);
                        lemma_with_first_row(start, monitor_id@, value);
                    }
                    self.set_row_brightness(row, value);
                },
                None => {},
            }
        }
    }

    /// Hands out the changes that wait to be applied, one for each monitor, in no particular
    /// order. None waits afterwards.
    pub fn take_pending(&mut self) -> (r: Vec<BrightnessUpdate>)
        requires
            old(self).wf(),
        ensures
            final(self).wf(),
            final(self)@ == (StateModel { pending: Map::empty(), ..old(self)@ }),
            one_for_each(r@),
            requested(r@) == old(self)@.pending,
    {
        let mut updates: Vec<BrightnessUpdate> = Vec::new();
        updates.append(&mut self.pending);
        assert(updates@ =~= old(self).pending@);
        updates
    }

    /// Whether a change waits to be applied to a monitor.
    fn has_pending(&self, id: &MonitorId) -> (r: bool)
        requires
            one_for_each(self.pending@),
        ensures
            r == self@.pending.dom().contains(id@),
    {
        proof {
            lemma_requested(self.pending@);
        }
        let mut i: usize = 0;
        while i < self.pending.len()
            invariant
                i <= self.pending@.len(),
                forall|k: int|
                    0 <= k < self.pending@.len() ==> requested(self.pending@).dom().contains(
                        (#[trigger] self.pending@[k]).id@,
                    ),
                forall|k: int| 0 <= k < i ==> (#[trigger] self.pending@[k]).id@ != id@,
            decreases self.pending@.len() - i,
        {
            if self.pending[i].id.same(id) {
                return true;
            }
            i += 1;
        }
        false
    }

    /// Shows what came of an update that failed.
    fn reconcile_outcome(&mut self, outcome: &ApplyOutcome)
        requires
            old(self).wf(),
            outcome.error is Some,
        ensures
            final(self).wf(),
            final(self)@ == old(self)@.reconciled(outcome@),
    {
        if self.has_pending(&outcome.id) {
            return;
        }
        let row: usize = match self.row_for_monitor(outcome.id.to_ui()) {
            Some(row) => row,
            None => {
                return;
            },
        };
        proof {
            lemma_row_of(self@.rows, outcome.id@);
            lemma_reconciled_wf(self@, outcome@);
        }
        match row_data(&self.model, row) {
            Some(entry) => {
                if entry.brightness == outcome.requested {
                    match outcome.effective {
                        Some(effective) => {
                            let mut changed = entry;
                            changed.brightness = effective;
                            set_row_data(&mut self.model, row, changed);
                        },
                        None => {},
                    }
                }
            },
            None => {},
        }
    }

    /// Shows what came of updates: where one failed, the row goes back to what the monitor has,
    /// unless it was changed since. Returns the messages about those that failed.
    pub fn reconcile_apply_report(&mut self, report: ApplyReport) -> (r: Vec<String>)
        requires
            old(self).wf(),
        ensures
            final(self).wf(),
            final(self)@ == old(self)@.reconciled_all(report.outcomes@),
            views(r@) == failure_texts(report.outcomes@),
    {
        let ghost start = self@;
        let outcomes = report.outcomes;
        let mut errors: Vec<String> = Vec::new();
        assert(views(errors@) =~= seq![]);
        let mut i: usize = 0;
        while i < outcomes.len()
            invariant
                i <= outcomes@.len(),
                self.wf(),
                self@ == start.reconciled_all(outcomes@.take(i as int)),
                views(errors@) == failure_texts(outcomes@.take(i as int)),
            decreases outcomes@.len() - i,
        {
            let outcome = &outcomes[i];
            let ghost earlier = views(errors@);
            assert(outcomes@.take(i + 1).drop_last() =~= outcomes@.take(i as int));
            match &outcome.error {
                Some(error) => {
                    let head = concat3(
                        "failed to apply brightness for monitor ",
                        outcome.id.to_ui(),
                        ": ",
                    );
                    let message = concat(head.as_str(), error.as_str());
                    assert(views(errors@.push(message)) =~= earlier.push(message@));
                    errors.push(message);
                    self.reconcile_outcome(outcome);
                },
                None => {},
            }
            i += 1;
        }
        assert(outcomes@.take(i as int) =~= outcomes@);
        errors
    }

    /// Whether there is a row.
    pub fn has_monitors(&self) -> (r: bool)
        ensures
            r == (self@.rows.len() > 0),
    {
        row_count(&self.model) > 0
    }

    /// The number of rows.
    pub fn monitor_count(&self) -> (r: usize)
        ensures
            r == self@.rows.len(),
    {
        row_count(&self.model)
    }

    /// The brightness that the row of a monitor shows.
    pub fn brightness_for_monitor(&self, monitor_id: &str) -> (r: Option<i32>)
        ensures
            r == match row_of(self@.rows, monitor_id@) {
                Some(row) => Some(self@.rows[row].2),
                None => None,
            },
    {
        proof {
            lemma_row_of(self@.rows, monitor_id@);
        }
        match self.row_for_monitor(monitor_id) {
            Some(row) => match row_data(&self.model, row) {
                Some(entry) => Some(entry.brightness),
                None => None,
            },
            None => None,
        }
    }
}

/// Lets a change wait, in place of an earlier one for the same monitor.
fn insert_pending(pending: &mut Vec<BrightnessUpdate>, id: MonitorId, value: i32)
    requires
        one_for_each(old(pending)@),
    ensures
        one_for_each(final(pending)@),
        requested(final(pending)@) == requested(old(pending)@).insert(id@, value),
{
    let ghost earlier = pending@;
    let ghost wanted = id@;
    let count: usize = pending.len();
    proof {
        lemma_requested(earlier);
    }
    let mut i: usize = 0;
    while i < count
        invariant
            i <= count,
            pending@ == earlier,
            earlier.len() == count,
            wanted == id@,
            earlier == old(pending)@,
            one_for_each(earlier),
            forall|k: int|
                0 <= k < earlier.len() ==> requested(earlier).dom().contains(
                    (#[trigger] earlier[k]).id@,
                ) && requested(earlier)[earlier[k].id@] == earlier[k].value,
            forall|x: Seq<char>| #[trigger]
                requested(earlier).dom().contains(x) ==> exists|k: int|
                    0 <= k < earlier.len() && (#[trigger] earlier[k]).id@ == x,
            forall|k: int| 0 <= k < i ==> (#[trigger] earlier[k]).id@ != wanted,
        decreases count - i,
    {
        if pending[i].id.same(&id) {
            pending.set(i, BrightnessUpdate { id, value });
            proof {
                assert forall|a: int, b: int| 0 <= a < b < pending@.len() implies (
                #[trigger] pending@[a]).id@ != (#[trigger] pending@[b]).id@ by {
                    assert(earlier[a].id@ != earlier[b].id@);
                }
                lemma_requested(pending@);
                let now = requested(pending@);
                let expected = requested(earlier).insert(wanted, value);
                assert(pending@[i as int].id@ == wanted);
                assert forall|x: Seq<char>|
                    #![trigger now.dom().contains(x)]
                    #![trigger expected.dom().contains(x)]
                    now.dom().contains(x) == expected.dom().contains(x) && (now.dom().contains(x)
                        ==> now[x] == expected[x]) by {
                    if now.dom().contains(x) {
                        let k = choose|k: int|
                            0 <= k < pending@.len() && (#[trigger] pending@[k]).id@ == x;
                        assert(earlier[k].id@ == x);
                    }
                    if x != wanted && expected.dom().contains(x) {
                        let k = choose|k: int|
                            0 <= k < earlier.len() && (#[trigger] earlier[k]).id@ == x;
                        assert(pending@[k].id@ == x);
                    }
                }
                assert(now.dom() =~= expected.dom());
                assert(now =~= expected);
            }
            return;
        }
        i += 1;
    }
    pending.push(BrightnessUpdate { id, value });
    proof {
        assert(pending@.drop_last() =~= earlier);
        assert forall|a: int, b: int| 0 <= a < b < pending@.len() implies (
        #[trigger] pending@[a]).id@ != (#[trigger] pending@[b]).id@ by {
            if b < earlier.len() {
                assert(earlier[a].id@ != earlier[b].id@);
            } else {
                assert(earlier[a].id@ != wanted);
            }
        }
    }
}

/// The first row with an id stays the first where rows follow.
proof fn lemma_row_of_prefix(rows: Seq<(Seq<char>, Seq<char>, i32)>, id: Seq<char>, count: int)
    requires
        0 <= count <= rows.len(),
        row_of(rows.take(count), id) is Some,
    ensures
        row_of(rows, id) == row_of(rows.take(count), id),
    decreases rows.len() - count,
{
    if count < rows.len() {
        assert(rows.take(count + 1).drop_last() =~= rows.take(count));
        lemma_row_of_prefix(rows, id, count + 1);
    } else {
        assert(rows.take(count) =~= rows);
    }
}

/// What changing the first rows does.
proof fn lemma_with_rows(state: StateModel, count: nat, value: i32)
    requires
        count <= state.rows.len(),
    ensures
        ({
            let later = state.with_rows(count, value);
            &&& later.rows.len() == state.rows.len()
            &&& forall|k: int|
                0 <= k < count ==> #[trigger] later.rows[k] == (
                    state.rows[k].0,
                    state.rows[k].1,
                    value,
                )
            &&& forall|k: int|
                count <= k < state.rows.len() ==> #[trigger] later.rows[k] == state.rows[k]
            &&& forall|id: Seq<char>| #[trigger]
                later.pending.dom().contains(id) <==> state.pending.dom().contains(id) || exists|
                    k: int,
                |
                    0 <= k < count && (#[trigger] state.rows[k]).0 == id
            &&& forall|k: int|
                0 <= k < count ==> later.pending[(#[trigger] state.rows[k]).0] == value
        }),
    decreases count,
{
    if count > 0 {
        lemma_with_rows(state, (count - 1) as nat, value);
        let earlier = state.with_rows((count - 1) as nat, value);
        let later = state.with_rows(count, value);
        assert(earlier.rows[count - 1] == state.rows[count - 1]);
        assert forall|id: Seq<char>| #[trigger]
            later.pending.dom().contains(id) <==> state.pending.dom().contains(id) || exists|k: int|
                0 <= k < count && (#[trigger] state.rows[k]).0 == id by {
            if later.pending.dom().contains(id) {
                if id == state.rows[count - 1].0 {
                } else {
                    assert(earlier.pending.dom().contains(id));
                    if !state.pending.dom().contains(id) {
                        let k = choose|k: int|
                            0 <= k < count - 1 && (#[trigger] state.rows[k]).0 == id;
                        assert(0 <= k < count && state.rows[k].0 == id);
                    }
                }
            }
            if exists|k: int| 0 <= k < count && (#[trigger] state.rows[k]).0 == id {
                let k = choose|k: int| 0 <= k < count && (#[trigger] state.rows[k]).0 == id;
                if k < count - 1 {
                    assert(earlier.pending.dom().contains(id));
                }
            }
        }
    }
}

/// Changing all rows keeps what waits in step with what is shown.
proof fn lemma_with_all_rows(state: StateModel, value: i32)
    requires
        state.wf(),
    ensures
        state.with_rows(state.rows.len(), value).wf(),
{
    let count = state.rows.len();
    let later = state.with_rows(count, value);
    lemma_with_rows(state, count, value);
    assert forall|id: Seq<char>| #[trigger] later.pending.dom().contains(id) implies (row_of(
        later.rows,
        id,
    ) matches Some(row) && later.rows[row].2 == later.pending[id]) by {
        if state.pending.dom().contains(id) {
            lemma_row_of(state.rows, id);
        }
        lemma_row_of_ids(state.rows, later.rows, id);
        lemma_row_of(state.rows, id);
        let k = row_of(state.rows, id)->0;
        assert(later.pending[state.rows[k].0] == value);
    }
}

/// Changing the first row with an id keeps what waits in step with what is shown.
proof fn lemma_with_first_row(state: StateModel, id: Seq<char>, value: i32)
    requires
        state.wf(),
        row_of(state.rows, id) is Some,
    ensures
        state.with_row(row_of(state.rows, id)->0, value).wf(),
{
    let row = row_of(state.rows, id)->0;
    let later = state.with_row(row, value);
    lemma_row_of(state.rows, id);
    assert forall|x: Seq<char>| #[trigger] later.pending.dom().contains(x) implies (row_of(
        later.rows,
        x,
    ) matches Some(at) && later.rows[at].2 == later.pending[x]) by {
        lemma_row_of_ids(state.rows, later.rows, x);
        lemma_row_of(state.rows, x);
        if x != id {
            assert(state.pending.dom().contains(x));
        }
    }
}

/// Going back to what a monitor has keeps what waits in step with what is shown.
proof fn lemma_reconciled_wf(state: StateModel, outcome: OutcomeModel)
    requires
        state.wf(),
    ensures
        state.reconciled(outcome).wf(),
{
    let later = state.reconciled(outcome);
    assert forall|x: Seq<char>| #[trigger] later.pending.dom().contains(x) implies (row_of(
        later.rows,
        x,
    ) matches Some(at) && later.rows[at].2 == later.pending[x]) by {
        assert(state.pending.dom().contains(x));
        lemma_row_of(state.rows, outcome.id);
        lemma_row_of(state.rows, x);
        lemma_row_of_ids(state.rows, later.rows, x);
    }
}

impl StateModel {
    /// The state once the changes that waited were handed out.
    pub open spec fn taken(self) -> StateModel {
        StateModel { pending: Map::empty(), ..self }
    }
}

/// Where a change was handed out and could not be applied, the row shows what the monitor has:
/// with the brightness that was shown before, all rows are as they were before the change.
pub proof fn failed_apply_shows_what_the_monitor_has(
    state: StateModel,
    id: Seq<char>,
    value: int,
    effective: i32,
    error: Seq<char>,
)
    requires
        row_of(state.rows, id) is Some,
    ensures
        ({
            let row = row_of(state.rows, id)->0;
            let outcome = OutcomeModel {
                id,
                requested: clamp_percent(value) as i32,
                effective: Some(effective),
                error: Some(error),
            };
            let later = state.chosen(id, value, false).taken().reconciled(outcome).rows;
            &&& later == state.rows.update(row, (id, state.rows[row].1, effective))
            &&& effective == state.rows[row].2 ==> later == state.rows
        }),
{
    let row = row_of(state.rows, id)->0;
    let chosen = state.chosen(id, value, false);
    lemma_row_of(state.rows, id);
    lemma_row_of_ids(state.rows, chosen.rows, id);
    assert(chosen.rows.update(row, (id, state.rows[row].1, effective)) =~= state.rows.update(
        row,
        (id, state.rows[row].1, effective),
    ));
    assert(state.rows.update(row, state.rows[row]) =~= state.rows);
}

/// What came of an earlier change does not touch a later one for the same monitor: neither while
/// the later one waits, nor once it was handed out and asks for something else.
pub proof fn newer_change_stays(
    state: StateModel,
    id: Seq<char>,
    earlier: int,
    later: int,
    outcome: OutcomeModel,
)
    requires
        row_of(state.rows, id) is Some,
        outcome.id == id,
        outcome.requested == clamp_percent(earlier),
    ensures
        ({
            let changed = state.chosen(id, earlier, false).taken().chosen(id, later, false);
            &&& changed.reconciled(outcome) == changed
            &&& clamp_percent(later) != clamp_percent(earlier) ==> changed.taken().reconciled(
                outcome,
            ) == changed.taken()
            &&& changed.rows[row_of(state.rows, id)->0].2 == clamp_percent(later)
        }),
{
    let once = state.chosen(id, earlier, false).taken();
    let changed = once.chosen(id, later, false);
    lemma_row_of(state.rows, id);
    lemma_row_of_ids(state.rows, once.rows, id);
    lemma_row_of_ids(once.rows, changed.rows, id);
}

/// Of several choices for a monitor that has a row, the last one alone waits to be applied.
pub proof fn last_choice_waits(state: StateModel, id: Seq<char>, first: int, last: int)
    requires
        row_of(state.rows, id) is Some,
    ensures
        ({
            let twice = state.chosen(id, first, false).chosen(id, last, false);
            &&& twice.pending == state.chosen(id, last, false).pending
            &&& twice.rows == state.chosen(id, last, false).rows
            &&& twice.pending.dom().contains(id)
            &&& twice.pending[id] == clamp_percent(last)
        }),
{
    let once = state.chosen(id, first, false);
    let twice = once.chosen(id, last, false);
    lemma_row_of(state.rows, id);
    lemma_row_of_ids(state.rows, once.rows, id);
    assert(twice.pending =~= state.chosen(id, last, false).pending);
    assert(twice.rows =~= state.chosen(id, last, false).rows);
}

/// What came of an update that succeeded changes nothing that is shown.
pub proof fn success_changes_nothing(state: StateModel, outcome: OutcomeModel)
    requires
        outcome.error is None,
    ensures
        state.reconciled(outcome) == state,
{
}

/// A brightness that is chosen for all monitors is shown in every row and waits for each.
pub proof fn synchronized_change_reaches_every_monitor(
    state: StateModel,
    id: Seq<char>,
    value: int,
    row: int,
)
    requires
        0 <= row < state.rows.len(),
    ensures
        ({
            let later = state.chosen(id, value, true);
            &&& later.rows.len() == state.rows.len()
            &&& later.rows[row] == (
                state.rows[row].0,
                state.rows[row].1,
                clamp_percent(value) as i32,
            )
            &&& later.pending.dom().contains(state.rows[row].0)
            &&& later.pending[state.rows[row].0] == clamp_percent(value)
        }),
{
    lemma_with_rows(state, state.rows.len(), clamp_percent(value) as i32);
}

/// A brightness that is chosen for one monitor leaves the other rows, and what waits for other
/// monitors, as they are.
pub proof fn single_change_reaches_one_monitor(
    state: StateModel,
    id: Seq<char>,
    value: int,
    row: int,
    other: Seq<char>,
)
    requires
        0 <= row < state.rows.len(),
        other != id,
    ensures
        ({
            let later = state.chosen(id, value, false);
            &&& later.rows.len() == state.rows.len()
            &&& row_of(state.rows, id) != Some(row) ==> later.rows[row] == state.rows[row]
            &&& later.pending.dom().contains(other) == state.pending.dom().contains(other)
            &&& state.pending.dom().contains(other) ==> later.pending[other]
                == state.pending[other]
        }),
{
    lemma_row_of(state.rows, id);
}

/// Division by five that rounds towards zero.
pub open spec fn fifth(value: int) -> int {
    if value >= 0 {
        value / 5
    } else {
        -((-value) / 5)
    }
}

/// The brightness that a scroll leads to: the next step of five percent in its direction.
pub open spec fn scrolled(current: int, up: bool) -> int {
    clamp_percent(
        if up {
            (fifth(current) + 1) * 5
        } else {
            (fifth(current + 4) - 1) * 5
        },
    )
}

/// Whether the step after a brightness can be computed in 32 bits.
pub open spec fn scroll_fits(current: int, up: bool) -> bool {
    current <= if up {
        2147483644
    } else {
        2147483643int
    }
}

/// Whether the step after a brightness can be computed.
pub fn can_scroll(current: i32, delta: i32) -> (r: bool)
    ensures
        r == scroll_fits(current as int, delta > 0),
{
    if delta > 0 {
        current <= 2147483644
    } else {
        current <= 2147483643
    }
}

/// Division by five that rounds towards zero.
fn fifth_of(value: i32) -> (r: i32)
    ensures
        r == fifth(value as int),
        -429496730 < r < 429496730,
{
    let wide: i64 = value as i64;
    if wide >= 0 {
        (wide / 5) as i32
    } else {
        (0 - ((0 - wide) / 5)) as i32
    }
}

/// The brightness that a scroll leads to: the next step of five percent in its direction.
pub fn brightness_after_scroll(current: i32, delta: i32) -> (r: i32)
    requires
        scroll_fits(current as int, delta > 0),
    ensures
        r == scrolled(current as int, delta > 0),
{
    if delta > 0 {
        percent_of((fifth_of(current) + 1) * 5)
    } else {
        percent_of((fifth_of(current + 4) - 1) * 5)
    }
}

/// A scroll leads to a multiple of five percent. From a percentage it is the nearest one above
/// or below, and stays at the end of the range.
pub proof fn scroll_leads_to_the_next_step(current: int, up: bool)
    ensures
        scrolled(current, up) % 5 == 0,
        0 <= scrolled(current, up) <= 100,
        0 <= current < 100 && up ==> current < scrolled(current, up) <= current + 5,
        0 < current <= 100 && !up ==> current - 5 <= scrolled(current, up) < current,
        current >= 100 && up ==> scrolled(current, up) == 100,
        current <= 0 && !up ==> scrolled(current, up) == 0,
{
}

/// A scroll down after a scroll up leads back to a step, and the other way round.
pub proof fn scroll_back_from_a_step(step: int)
    requires
        step % 5 == 0,
    ensures
        0 <= step < 100 ==> scrolled(scrolled(step, true), false) == step,
        0 < step <= 100 ==> scrolled(scrolled(step, false), true) == step,
{
}

/// Whether the row of a monitor, where it has one, shows the brightness of the monitor.
pub open spec fn agrees(
    rows: Seq<(Seq<char>, Seq<char>, i32)>,
    monitors: Seq<MonitorModel>,
    id: Seq<char>,
) -> bool {
    match (row_of(rows, id), place_of(monitors, id)) {
        (Some(row), Some(i)) => rows[row].2 == monitors[i].brightness,
        _ => true,
    }
}

/// Whether the row of a monitor, where it has one, shows a brightness.
pub open spec fn row_shows(
    rows: Seq<(Seq<char>, Seq<char>, i32)>,
    id: Seq<char>,
    value: i32,
) -> bool {
    row_of(rows, id) matches Some(row) ==> rows[row].2 == value
}

/// Whether each row shows the brightness of its monitor, or what is still to be applied to it.
pub open spec fn in_step(
    rows: Seq<(Seq<char>, Seq<char>, i32)>,
    monitors: Seq<MonitorModel>,
    updates: Seq<BrightnessUpdate>,
) -> bool {
    &&& forall|k: int|
        0 <= k < updates.len() ==> row_shows(rows, (#[trigger] updates[k]).id@, updates[k].value)
    &&& forall|id: Seq<char>|
        (forall|k: int| 0 <= k < updates.len() ==> (#[trigger] updates[k]).id@ != id)
            ==> #[trigger] agrees(rows, monitors, id)
}

/// Once it is known what came of an update, the row of its monitor shows the brightness that the
/// monitor has, and every other row shows what it did.
pub proof fn row_agrees_after_an_update(
    state: StateModel,
    monitors: Seq<MonitorModel>,
    update: BrightnessUpdate,
    reply: Result<(), MonitorError>,
    other: Seq<char>,
)
    requires
        !state.pending.dom().contains(update.id@),
        0 <= update.value <= 100,
        row_shows(state.rows, update.id@, update.value),
    ensures
        ({
            let later = state.reconciled(outcome_of(monitors, update, reply));
            let known = monitors_after(monitors, update, reply);
            &&& agrees(later.rows, known, update.id@)
            &&& other != update.id@ ==> agrees(later.rows, known, other) == agrees(
                state.rows,
                monitors,
                other,
            )
            &&& other != update.id@ ==> forall|value: i32| #[trigger]
                row_shows(later.rows, other, value) == row_shows(state.rows, other, value)
            &&& later.pending == state.pending
        }),
{
    let outcome = outcome_of(monitors, update, reply);
    let later = state.reconciled(outcome);
    let known = monitors_after(monitors, update, reply);
    lemma_place_of(monitors, update.id@);
    lemma_place_of(monitors, other);
    lemma_row_of(state.rows, update.id@);
    lemma_row_of(state.rows, other);
    lemma_row_of_ids(state.rows, later.rows, update.id@);
    lemma_row_of_ids(state.rows, later.rows, other);
    lemma_place_of_ids(monitors, known, update.id@);
    lemma_place_of_ids(monitors, known, other);
}

/// Once it is known what came of all updates that were handed out, each row shows the brightness
/// that its monitor has, whichever of the updates failed.
pub proof fn rows_agree_after_all_updates(
    state: StateModel,
    monitors: Seq<MonitorModel>,
    updates: Seq<BrightnessUpdate>,
    replies: Seq<Result<(), MonitorError>>,
    outcomes: Seq<ApplyOutcome>,
    id: Seq<char>,
)
    requires
        state.pending == Map::<Seq<char>, i32>::empty(),
        one_for_each(updates),
        forall|k: int| 0 <= k < updates.len() ==> 0 <= (#[trigger] updates[k]).value <= 100,
        in_step(state.rows, monitors, updates),
        replies.len() == updates.len(),
        outcomes.len() == updates.len(),
        forall|k: int|
            0 <= k < updates.len() ==> (#[trigger] outcomes[k])@ == outcome_of(
                monitors_after_all(monitors, updates.take(k), replies.take(k)),
                updates[k],
                replies[k],
            ),
    ensures
        agrees(
            state.reconciled_all(outcomes).rows,
            monitors_after_all(monitors, updates, replies),
            id,
        ),
{
    let count = updates.len() as int;
    lemma_in_step(state, monitors, updates, replies, outcomes, count);
    assert(updates.take(count) =~= updates);
    assert(replies.take(count) =~= replies);
    assert(outcomes.take(count) =~= outcomes);
    assert(updates.skip(count).len() == 0);
}

/// Rows and monitors stay in step while updates are dealt with, one after the other.
proof fn lemma_in_step(
    state: StateModel,
    monitors: Seq<MonitorModel>,
    updates: Seq<BrightnessUpdate>,
    replies: Seq<Result<(), MonitorError>>,
    outcomes: Seq<ApplyOutcome>,
    count: int,
)
    requires
        state.pending == Map::<Seq<char>, i32>::empty(),
        one_for_each(updates),
        forall|k: int| 0 <= k < updates.len() ==> 0 <= (#[trigger] updates[k]).value <= 100,
        in_step(state.rows, monitors, updates),
        replies.len() == updates.len(),
        outcomes.len() == updates.len(),
        forall|k: int|
            0 <= k < updates.len() ==> (#[trigger] outcomes[k])@ == outcome_of(
                monitors_after_all(monitors, updates.take(k), replies.take(k)),
                updates[k],
                replies[k],
            ),
        0 <= count <= updates.len(),
    ensures
        state.reconciled_all(outcomes.take(count)).pending == state.pending,
        in_step(
            state.reconciled_all(outcomes.take(count)).rows,
            monitors_after_all(monitors, updates.take(count), replies.take(count)),
            updates.skip(count),
        ),
    decreases count,
{
    if count == 0 {
        assert(updates.skip(0) =~= updates);
    } else {
        let last = count - 1;
        let earlier = state.reconciled_all(outcomes.take(last));
        let known = monitors_after_all(monitors, updates.take(last), replies.take(last));
        let remaining = updates.skip(last);
        lemma_in_step(state, monitors, updates, replies, outcomes, last);
        assert(outcomes.take(count).drop_last() =~= outcomes.take(last));
        assert(updates.take(count).drop_last() =~= updates.take(last));
        assert(replies.take(count).take(last) =~= replies.take(last));
        assert(remaining.drop_first() =~= updates.skip(count));
        assert forall|a: int, b: int| 0 <= a < b < remaining.len() implies (
        #[trigger] remaining[a]).id@ != (#[trigger] remaining[b]).id@ by {
            assert(updates[last + a].id@ != updates[last + b].id@);
        }
        lemma_in_step_once(earlier, known, remaining, replies[last]);
    }
}

/// Rows and monitors stay in step while the first of some updates is dealt with.
proof fn lemma_in_step_once(
    state: StateModel,
    monitors: Seq<MonitorModel>,
    updates: Seq<BrightnessUpdate>,
    reply: Result<(), MonitorError>,
)
    requires
        updates.len() > 0,
        !state.pending.dom().contains(updates[0].id@),
        one_for_each(updates),
        0 <= updates[0].value <= 100,
        in_step(state.rows, monitors, updates),
    ensures
        state.reconciled(outcome_of(monitors, updates[0], reply)).pending == state.pending,
        in_step(
            state.reconciled(outcome_of(monitors, updates[0], reply)).rows,
            monitors_after(monitors, updates[0], reply),
            updates.drop_first(),
        ),
{
    let update = updates[0];
    let rest = updates.drop_first();
    let later = state.reconciled(outcome_of(monitors, update, reply));
    let known = monitors_after(monitors, update, reply);
    row_agrees_after_an_update(state, monitors, update, reply, update.id@);
    assert forall|k: int| 0 <= k < rest.len() implies row_shows(
        later.rows,
        (#[trigger] rest[k]).id@,
        rest[k].value,
    ) by {
        assert(rest[k] == updates[k + 1]);
        row_agrees_after_an_update(state, monitors, update, reply, rest[k].id@);
    }
    assert forall|id: Seq<char>|
        (forall|k: int| 0 <= k < rest.len() ==> (#[trigger] rest[k]).id@ != id) implies #[trigger]
    agrees(later.rows, known, id) by {
        if id != update.id@ {
            assert forall|k: int| 0 <= k < updates.len() implies (#[trigger] updates[k]).id@
                != id by {
                if k > 0 {
                    assert(updates[k] == rest[k - 1]);
                }
            }
            row_agrees_after_an_update(state, monitors, update, reply, id);
        }
    }
}

} // verus!

//! The rows of the popup, the changes that wait, and the requests of the application.
use vstd::prelude::*;

use crate::monitor_control::MonitorSnapshot;
use crate::monitor_hardware::windows::{ApplyOutcome, BrightnessUpdate, OutcomeModel, RefreshResult};
use crate::monitor_state::{
    failure_texts, lemma_row_of, requested, row_of, scroll_leads_to_the_next_step,
    scrolled, snapshot_rows, synchronized_change_reaches_every_monitor, StateModel,
};
use crate::session::{Session, SessionModel, Status};

verus! {

/// A brightness that is chosen for a monitor is shown in its row, which stays that monitor's, and
/// waits to be applied to it. No other row changes, and nothing else waits that did not.
pub proof fn choice_is_shown_and_waits(state: StateModel, id: Seq<char>, value: int, row: int)
    requires
        0 <= row < state.rows.len(),
        state.rows[row].0 == id,
        forall|k: int| 0 <= k < row ==> (#[trigger] state.rows[k]).0 != id,
    ensures
        ({
            let later = state.chosen(id, value, false);
            &&& later.rows.len() == state.rows.len()
            &&& forall|k: int|
                0 <= k < state.rows.len() && k != row ==> #[trigger] later.rows[k] == state.rows[k]
            &&& later.rows[row].0 == id
            &&& later.rows[row].1 == state.rows[row].1
            &&& 0 <= value <= 100 ==> later.rows[row].2 == value
            &&& value < 0 ==> later.rows[row].2 == 0
            &&& value > 100 ==> later.rows[row].2 == 100
            &&& later.pending == state.pending.insert(id, later.rows[row].2)
        }),
{
    lemma_first_row(state.rows, id, row);
}

/// The place of an id is that of its first row.
proof fn lemma_first_row(rows: Seq<(Seq<char>, Seq<char>, i32)>, id: Seq<char>, row: int)
    requires
        0 <= row < rows.len(),
        rows[row].0 == id,
        forall|k: int| 0 <= k < row ==> (#[trigger] rows[k]).0 != id,
    ensures
        row_of(rows, id) == Some(row),
{
    lemma_row_of(rows, id);
    match row_of(rows, id) {
        Some(found) => {
            if found < row {
                assert(rows[found].0 != id);
            }
        },
        None => {
            assert(rows[row].0 != id);
        },
    }
}

/// A brightness that is chosen for a monitor without a row changes nothing.
pub proof fn choice_for_an_unknown_monitor_changes_nothing(
    state: StateModel,
    id: Seq<char>,
    value: int,
)
    requires
        forall|k: int| 0 <= k < state.rows.len() ==> (#[trigger] state.rows[k]).0 != id,
    ensures
        state.chosen(id, value, false) == state,
{
    lemma_row_of(state.rows, id);
}

/// A brightness that is chosen for all monitors is shown in every row, each of which stays its
/// monitor's, and waits for each.
pub proof fn choice_for_all_is_shown_everywhere(
    state: StateModel,
    id: Seq<char>,
    value: int,
    row: int,
)
    requires
        0 <= row < state.rows.len(),
    ensures
        ({
            let later = state.chosen(id, value, true);
            &&& later.rows.len() == state.rows.len()
            &&& later.rows[row].0 == state.rows[row].0
            &&& later.rows[row].1 == state.rows[row].1
            &&& 0 <= value <= 100 ==> later.rows[row].2 == value
            &&& value < 0 ==> later.rows[row].2 == 0
            &&& value > 100 ==> later.rows[row].2 == 100
            &&& later.pending.dom().contains(state.rows[row].0)
            &&& later.pending[state.rows[row].0] == later.rows[row].2
        }),
{
    synchronized_change_reaches_every_monitor(state, id, value, row);
}

/// An update that failed leaves the row of its monitor with what the monitor has, where the row
/// still shows what was asked for and nothing waits for the monitor; in every other case it changes
/// nothing. No other row changes, and what waits stays.
pub proof fn failed_update_is_taken_back(state: StateModel, outcome: OutcomeModel, row: int)
    requires
        0 <= row < state.rows.len(),
        state.rows[row].0 == outcome.id,
        forall|k: int| 0 <= k < row ==> (#[trigger] state.rows[k]).0 != outcome.id,
    ensures
        ({
            let later = state.reconciled(outcome);
            let taken_back = outcome.error is Some && !state.pending.dom().contains(outcome.id)
                && state.rows[row].2 == outcome.requested && outcome.effective is Some;
            &&& later.pending == state.pending
            &&& later.rows.len() == state.rows.len()
            &&& forall|k: int|
                0 <= k < state.rows.len() && k != row ==> #[trigger] later.rows[k] == state.rows[k]
            &&& taken_back ==> later.rows[row] == (
                state.rows[row].0,
                state.rows[row].1,
                outcome.effective->Some_0,
            )
            &&& !taken_back ==> later == state
        }),
{
    lemma_first_row(state.rows, outcome.id, row);
}

/// What came of an update for a monitor without a row changes nothing.
pub proof fn outcome_for_an_unknown_monitor_changes_nothing(
    state: StateModel,
    outcome: OutcomeModel,
)
    requires
        forall|k: int| 0 <= k < state.rows.len() ==> (#[trigger] state.rows[k]).0 != outcome.id,
    ensures
        state.reconciled(outcome) == state,
{
    lemma_row_of(state.rows, outcome.id);
}

/// Outcomes are taken one by one, in their order, and each failure is told once, with the monitor
/// and the reason.
pub proof fn outcomes_are_taken_in_order(
    state: StateModel,
    outcomes: Seq<ApplyOutcome>,
    outcome: ApplyOutcome,
)
    ensures
        state.reconciled_all(seq![]) == state,
        state.reconciled_all(outcomes.push(outcome)) == state.reconciled_all(outcomes).reconciled(
            outcome@,
        ),
        failure_texts(seq![]) == Seq::<Seq<char>>::empty(),
        failure_texts(outcomes.push(outcome)) == match outcome.error {
            Some(error) => failure_texts(outcomes).push(
                "failed to apply brightness for monitor "@ + outcome.id@ + ": "@ + error@,
            ),
            None => failure_texts(outcomes),
        },
        outcome@.id == outcome.id@,
        outcome@.requested == outcome.requested,
        outcome@.effective == outcome.effective,
{
    assert(outcomes.push(outcome).drop_last() =~= outcomes);
}

/// The rows show the snapshots, each with its id, name and brightness, in their order.
pub proof fn rows_show_the_snapshots(snapshots: Seq<MonitorSnapshot>, i: int)
    ensures
        snapshot_rows(snapshots).len() == snapshots.len(),
        0 <= i < snapshots.len() ==> snapshot_rows(snapshots)[i] == (
            snapshots[i].id@,
            snapshots[i].name@,
            snapshots[i].brightness,
        ),
{
}

/// What updates ask for: of two for one monitor, what the later one does.
pub proof fn updates_ask_for_their_values(
    updates: Seq<BrightnessUpdate>,
    update: BrightnessUpdate,
    other: Seq<char>,
)
    ensures
        requested(seq![]).dom().is_empty(),
        requested(updates.push(update)).dom().contains(update.id@),
        requested(updates.push(update))[update.id@] == update.value,
        other != update.id@ ==> {
            &&& requested(updates.push(update)).dom().contains(other) <==> requested(
                updates,
            ).dom().contains(other)
            &&& requested(updates).dom().contains(other) ==> requested(updates.push(update))[other]
                == requested(updates)[other]
        },
{
    assert(updates.push(update).drop_last() =~= updates);
}

/// A scroll over a monitor moves what its row shows to the next step of five percent in the
/// direction of the scroll, at most to the end of the range. Up from a percentage it is brighter,
/// down from one it is darker, by no more than five percent. The new value waits to be applied, and
/// where the scroll is for one monitor alone, no other row changes.
pub proof fn scroll_moves_what_the_row_shows(
    session: Session,
    id: Seq<char>,
    up: bool,
    sync_all: bool,
    row: int,
)
    requires
        0 <= row < session@.state.rows.len(),
        session@.state.rows[row].0 == id,
        forall|k: int| 0 <= k < row ==> (#[trigger] session@.state.rows[k]).0 != id,
    ensures
        ({
            let before = session@.state;
            let later = before.chosen(id, scrolled(session.scroll_start(id), up), sync_all);
            let p = before.rows[row].2;
            let q = later.rows[row].2;
            &&& later.rows.len() == before.rows.len()
            &&& q % 5 == 0
            &&& 0 <= q <= 100
            &&& up && 0 <= p < 100 ==> p < q <= p + 5
            &&& !up && 0 < p <= 100 ==> p - 5 <= q < p
            &&& up && p >= 100 ==> q == 100
            &&& !up && p <= 0 ==> q == 0
            &&& later.rows[row].0 == id
            &&& later.rows[row].1 == before.rows[row].1
            &&& later.pending.dom().contains(id)
            &&& later.pending[id] == q
            &&& !sync_all ==> forall|k: int|
                0 <= k < before.rows.len() && k != row ==> #[trigger] later.rows[k]
                    == before.rows[k]
            &&& sync_all ==> forall|k: int|
                0 <= k < before.rows.len() ==> (#[trigger] later.rows[k]).2 == q
        }),
{
    let before = session@.state;
    let start = session.scroll_start(id);
    let value = scrolled(start, up);
    lemma_first_row(before.rows, id, row);
    scroll_leads_to_the_next_step(start, up);
    if sync_all {
        choice_for_all_is_shown_everywhere(before, id, value, row);
        let later = before.chosen(id, value, true);
        assert forall|k: int| 0 <= k < before.rows.len() implies (#[trigger] later.rows[k]).2
            == later.rows[row].2 by {
            choice_for_all_is_shown_everywhere(before, id, value, k);
        }
    } else {
        choice_is_shown_and_waits(before, id, value, row);
    }
}

/// A scroll over a monitor without a row starts from fifty percent.
pub proof fn scroll_over_an_unknown_monitor(session: Session, id: Seq<char>, up: bool)
    requires
        forall|k: int|
            0 <= k < session@.state.rows.len() ==> (#[trigger] session@.state.rows[k]).0 != id,
    ensures
        scrolled(session.scroll_start(id), up) == if up {
            55int
        } else {
            45int
        },
        session@.state.chosen(id, scrolled(session.scroll_start(id), up), false) == session@.state,
{
    lemma_row_of(session@.state.rows, id);
}

/// A request to look for monitors keeps what is shown, gives up what waits, and becomes the latest;
/// its number is the next one.
pub proof fn refresh_becomes_the_latest(session: SessionModel)
    ensures
        session.refreshing().latest_refresh_id == session.next_request_id,
        session.refreshing().next_request_id != session.next_request_id,
        session.refreshing().next_request_id > 0,
        session.refreshing().state.rows == session.state.rows,
        session.refreshing().state.pending.dom().is_empty(),
        session.refreshing().pending_requests == session.pending_requests,
{
}

/// The answer to the latest request to look for monitors is shown where it found some, and what
/// waits is given up then. Every other answer, and one that says that looking failed, changes
/// nothing.
pub proof fn answers_that_are_shown(
    session: SessionModel,
    request_id: u64,
    result: Result<RefreshResult, String>,
    i: int,
)
    ensures
        ({
            let later = session.refreshed(request_id, result);
            let counts = request_id == session.latest_refresh_id && result is Ok;
            &&& !counts ==> later == session
            &&& counts ==> {
                let snapshots = result->Ok_0.snapshots@;
                &&& later.state.rows.len() == snapshots.len()
                &&& 0 <= i < snapshots.len() ==> later.state.rows[i] == (
                    snapshots[i].id@,
                    snapshots[i].name@,
                    snapshots[i].brightness,
                )
                &&& later.state.pending.dom().is_empty()
                &&& later.next_request_id == session.next_request_id
                &&& later.latest_refresh_id == session.latest_refresh_id
                &&& later.pending_requests == session.pending_requests
            }
        }),
{
}

/// At the end of the delay what waits is handed out, under the next number, and what is shown stays;
/// where nothing waits, nothing happens.
pub proof fn end_of_the_delay(session: SessionModel)
    ensures
        session.state.pending.dom().is_empty() ==> session.delay_ended() == session,
        !session.state.pending.dom().is_empty() ==> {
            let later = session.delay_ended();
            &&& later.next_request_id != session.next_request_id
            &&& later.next_request_id > 0
            &&& later.state.rows == session.state.rows
            &&& later.state.pending.dom().is_empty()
            &&& later.latest_refresh_id == session.latest_refresh_id
            &&& later.pending_requests == session.pending_requests
        },
{
    if session.state.pending.dom().is_empty() {
        assert(session.state.pending =~= Map::empty());
    }
}

/// A choice begins no request and touches nothing but what is shown and what waits.
pub proof fn choice_begins_no_request(
    session: SessionModel,
    id: Seq<char>,
    value: int,
    sync_all: bool,
)
    ensures
        session.chosen(id, value, sync_all).state == session.state.chosen(id, value, sync_all),
        session.chosen(id, value, sync_all).next_request_id == session.next_request_id,
        session.chosen(id, value, sync_all).latest_refresh_id == session.latest_refresh_id,
        session.chosen(id, value, sync_all).pending_requests == session.pending_requests,
{
}

/// What the status line says.
pub proof fn status_lines(status: Status)
    ensures
        status.text() == match status {
            Status::Clear => ""@,
            Status::RefreshFailed => "Couldn't refresh monitors."@,
            Status::RefreshIncomplete => "Some monitors couldn't be refreshed."@,
            Status::ApplyFailed => "Couldn't change brightness."@,
            Status::ServiceStopped => "Monitor service stopped."@,
        },
{
}

} // verus!

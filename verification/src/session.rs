//! What the tray application does about user input and about the answers of the worker.
use vstd::prelude::*;

use crate::monitor_hardware::windows::{ApplyReport, BrightnessUpdate, RefreshResult};
use crate::monitor_state::{
    brightness_after_scroll, can_scroll, failure_texts, lemma_requested, one_for_each, requested,
    row_of, scroll_fits, scrolled, snapshot_rows, MonitorState, StateModel,
};
use crate::text::{concat, views};

verus! {

/// The brightness that a scroll starts from where the monitor is not known.
pub const DEFAULT_BRIGHTNESS: i32 = 50;

/// How long changes wait before they are applied, in milliseconds.
pub const APPLY_DELAY_MS: u64 = 1000;

/// How often the worker is asked for events, in milliseconds.
pub const WORKER_POLL_INTERVAL_MS: u64 = 25;

/// How often the mouse is looked at while the popup is visible, in milliseconds.
pub const OUTSIDE_CLICK_POLL_INTERVAL_MS: u64 = 50;

/// What the status line of the popup says.
#[derive(Clone, Copy, Debug, PartialEq, Eq, Structural)]
pub enum Status {
    Clear,
    RefreshFailed,
    RefreshIncomplete,
    ApplyFailed,
    ServiceStopped,
}

impl Status {
    /// The text of the status line.
    pub open spec fn text(self) -> Seq<char> {
        match self {
            Status::Clear => ""@,
            Status::RefreshFailed => "Couldn't refresh monitors."@,
            Status::RefreshIncomplete => "Some monitors couldn't be refreshed."@,
            Status::ApplyFailed => "Couldn't change brightness."@,
            Status::ServiceStopped => "Monitor service stopped."@,
        }
    }

    /// The text of the status line.
    pub fn message(self) -> (r: &'static str)
        ensures
            r@ == self.text(),
    {
        match self {
            Status::Clear => "",
            Status::RefreshFailed => "Couldn't refresh monitors.",
            Status::RefreshIncomplete => "Some monitors couldn't be refreshed.",
            Status::ApplyFailed => "Couldn't change brightness.",
            Status::ServiceStopped => "Monitor service stopped.",
        }
    }
}

/// What came of handing a request to the worker.
#[derive(Clone, Copy, Debug, PartialEq, Eq, Structural)]
pub enum Queued {
    /// The worker has it, and is asked for events already.
    Waiting,
    /// The worker has it, and has to be asked for events from now on.
    StartPolling,
    /// The worker is gone; the status line says so.
    Refused(Status),
}

/// What the user is told after the worker answered.
#[derive(Debug)]
pub struct Notice {
    pub status: Status,
    /// What goes to the log.
    pub log: Vec<String>,
}

/// Something that happens to the changes that wait.
pub enum ApplyEvent<'a> {
    /// The user chose a brightness.
    Changed { monitor_id: &'a str, value: i32, sync_all: bool },
    /// The user scrolled over a slider.
    Scrolled { monitor_id: &'a str, delta: i32, sync_all: bool },
    /// Monitors are to be looked for.
    RefreshRequested,
    /// The delay is over.
    DelayEnded,
}

/// What to do with the timer of the delay, and with the worker.
#[derive(Debug)]
pub enum ApplyAction {
    /// Start the delay, from the beginning where it has started already. A slider is shown where
    /// there are monitors.
    Restart { delay_ms: u64, has_monitors: bool },
    /// Stop the delay, and ask the worker to look for monitors.
    StopAndRefresh { request_id: u64 },
    /// Ask the worker to apply the updates.
    Apply { request_id: u64, updates: Vec<BrightnessUpdate> },
    /// Nothing waits to be applied.
    Nothing,
}

/// The number of the request after another. It is never zero.
pub open spec fn following_request(id: u64) -> u64 {
    if id == u64::MAX {
        1
    } else {
        (id + 1) as u64
    }
}

/// What the application remembers.
pub struct SessionModel {
    /// The number of the next request.
    pub next_request_id: u64,
    /// The number of the latest request to look for monitors.
    pub latest_refresh_id: u64,
    /// How many requests the worker has not answered yet.
    pub pending_requests: nat,
    /// What the popup shows.
    pub state: StateModel,
}

impl SessionModel {
    /// A request that has begun.
    pub open spec fn numbered(self) -> SessionModel {
        SessionModel { next_request_id: following_request(self.next_request_id), ..self }
    }

    /// A request to look for monitors that has begun: what waits to be applied is given up.
    pub open spec fn refreshing(self) -> SessionModel {
        SessionModel {
            latest_refresh_id: self.next_request_id,
            state: self.state.taken(),
            ..self.numbered()
        }
    }

    /// A brightness was chosen for a monitor, or for all.
    pub open spec fn chosen(self, id: Seq<char>, value: int, sync_all: bool) -> SessionModel {
        SessionModel { state: self.state.chosen(id, value, sync_all), ..self }
    }

    /// The delay is over: where anything waits, a request to apply it has begun.
    pub open spec fn delay_ended(self) -> SessionModel {
        if self.state.pending == Map::<Seq<char>, i32>::empty() {
            self
        } else {
            SessionModel { state: self.state.taken(), ..self.numbered() }
        }
    }

    /// The answer to a request to look for monitors: only the latest one counts.
    pub open spec fn refreshed(self, request_id: u64, result: Result<RefreshResult, String>) ->
        SessionModel {
        match result {
            Ok(found) => if request_id == self.latest_refresh_id {
                SessionModel {
                    state: StateModel {
                        rows: snapshot_rows(found.snapshots@),
                        pending: Map::empty(),
                    },
                    ..self
                }
            } else {
                self
            },
            Err(_) => self,
        }
    }
}

/// What the application remembers.
pub struct Session {
    next_request_id: u64,
    latest_refresh_id: u64,
    pending_worker_requests: usize,
    state: MonitorState,
}

impl View for Session {
    type V = SessionModel;

    closed spec fn view(&self) -> SessionModel {
        SessionModel {
            next_request_id: self.next_request_id,
            latest_refresh_id: self.latest_refresh_id,
            pending_requests: self.pending_worker_requests as nat,
            state: self.state@,
        }
    }
}

impl Session {
    /// The next number is not zero, and what waits to be applied is what is shown.
    pub closed spec fn wf(self) -> bool {
        self.next_request_id > 0 && self.state.wf()
    }

    /// The next number is not zero, and what waits to be applied is what is shown.
    pub proof fn pending_changes_are_shown(self)
        requires
            self.wf(),
        ensures
            self@.next_request_id > 0,
            self@.state.wf(),
    {
        self.state.pending_changes_are_shown();
    }

    /// The application before anything has happened.
    pub fn new() -> (r: Self)
        ensures
            r.wf(),
            r@ == (SessionModel {
                next_request_id: 1,
                latest_refresh_id: 0,
                pending_requests: 0,
                state: StateModel { rows: seq![], pending: Map::empty() },
            }),
    {
        Session {
            next_request_id: 1,
            latest_refresh_id: 0,
            pending_worker_requests: 0,
            state: MonitorState::new(),
        }
    }

    /// What the popup shows.
    pub fn state(&self) -> (r: &MonitorState)
        ensures
            r@ == self@.state,
    {
        &self.state
    }

    /// The number of a new request.
    pub fn next_request_id(&mut self) -> (r: u64)
        requires
            old(self).wf(),
        ensures
            final(self).wf(),
            r == old(self)@.next_request_id,
            r > 0,
            final(self)@ == old(self)@.numbered(),
    {
        let request_id: u64 = self.next_request_id;
        self.next_request_id = if request_id == u64::MAX {
            1
        } else {
            request_id + 1
        };
        request_id
    }

    /// Shows a brightness for a monitor, or for all. Returns whether there are monitors.
    pub fn update_brightness(&mut self, monitor_id: &str, value: i32, sync_all: bool) -> (r: bool)
        requires
            old(self).wf(),
        ensures
            final(self).wf(),
            final(self)@ == (SessionModel {
                state: old(self)@.state.chosen(monitor_id@, value as int, sync_all),
                ..old(self)@
            }),
            r == (final(self)@.state.rows.len() > 0),
    {
        self.state.update_brightness(monitor_id, value, sync_all);
        self.state.has_monitors()
    }

    /// The brightness that a monitor shows, or that in the middle of the range.
    pub open spec fn scroll_start(self, monitor_id: Seq<char>) -> int {
        match row_of(self@.state.rows, monitor_id) {
            Some(row) => self@.state.rows[row].2 as int,
            None => DEFAULT_BRIGHTNESS as int,
        }
    }

    /// The brightness that a monitor shows, or that in the middle of the range.
    fn brightness_to_scroll(&self, monitor_id: &str) -> (r: i32)
        ensures
            r == self.scroll_start(monitor_id@),
    {
        match self.state.brightness_for_monitor(monitor_id) {
            Some(brightness) => brightness,
            None => DEFAULT_BRIGHTNESS,
        }
    }

    /// Whether the brightness after a scroll can be computed.
    pub fn can_scroll_brightness(&self, monitor_id: &str, delta: i32) -> (r: bool)
        ensures
            r == scroll_fits(self.scroll_start(monitor_id@), delta > 0),
    {
        can_scroll(self.brightness_to_scroll(monitor_id), delta)
    }

    /// Shows the brightness after a scroll for a monitor, or for all. Returns whether there are
    /// monitors.
    pub fn scroll_brightness(&mut self, monitor_id: &str, delta: i32, sync_all: bool) -> (r: bool)
        requires
            old(self).wf(),
            scroll_fits(old(self).scroll_start(monitor_id@), delta > 0),
        ensures
            final(self).wf(),
            final(self)@ == (SessionModel {
                state: old(self)@.state.chosen(
                    monitor_id@,
                    scrolled(old(self).scroll_start(monitor_id@), delta > 0),
                    sync_all,
                ),
                ..old(self)@
            }),
            r == (final(self)@.state.rows.len() > 0),
    {
        let current: i32 = self.brightness_to_scroll(monitor_id);
        let value: i32 = brightness_after_scroll(current, delta);
        self.update_brightness(monitor_id, value, sync_all)
    }

    /// Begins a request to look for monitors, and returns its number. What waits to be applied is
    /// given up.
    pub fn request_refresh(&mut self) -> (r: u64)
        requires
            old(self).wf(),
        ensures
            final(self).wf(),
            r == old(self)@.next_request_id,
            final(self)@ == old(self)@.refreshing(),
    {
        self.state.discard_pending();
        let request_id: u64 = self.next_request_id();
        self.latest_refresh_id = request_id;
        request_id
    }

    /// Begins a request to apply the changes that wait, where there are some: its number, and one
    /// update for each monitor.
    pub fn request_apply(&mut self) -> (r: Option<(u64, Vec<BrightnessUpdate>)>)
        requires
            old(self).wf(),
        ensures
            final(self).wf(),
            r is None == (old(self)@.state.pending == Map::<Seq<char>, i32>::empty()),
            match r {
                Some((request_id, updates)) => {
                    &&& request_id == old(self)@.next_request_id
                    &&& updates@.len() > 0
                    &&& one_for_each(updates@)
                    &&& requested(updates@) == old(self)@.state.pending
                    &&& final(self)@ == (SessionModel {
                        state: old(self)@.state.taken(),
                        ..old(self)@.numbered()
                    })
                },
                None => final(self)@ == old(self)@,
            },
    {
        let updates = self.state.take_pending();
        if updates.len() == 0 {
            return None;
        }
        proof {
            lemma_requested(updates@);
            assert(requested(updates@).dom().contains(updates@[0].id@));
        }
        let request_id: u64 = self.next_request_id();
        Some((request_id, updates))
    }

    /// What happens to the changes that wait, and to the delay after which they are applied. Every
    /// choice starts the delay again; a request to look for monitors stops it; at its end all that
    /// waits is applied by one request, where anything waits.
    pub fn apply_step(&mut self, event: ApplyEvent) -> (r: ApplyAction)
        requires
            old(self).wf(),
            event matches ApplyEvent::Scrolled { monitor_id, delta, .. } ==> scroll_fits(
                old(self).scroll_start(monitor_id@),
                delta > 0,
            ),
        ensures
            final(self).wf(),
            match event {
                ApplyEvent::Changed { monitor_id, value, sync_all } => {
                    &&& final(self)@ == old(self)@.chosen(monitor_id@, value as int, sync_all)
                    &&& r == (ApplyAction::Restart {
                        delay_ms: APPLY_DELAY_MS,
                        has_monitors: final(self)@.state.rows.len() > 0,
                    })
                },
                ApplyEvent::Scrolled { monitor_id, delta, sync_all } => {
                    &&& final(self)@ == old(self)@.chosen(
                        monitor_id@,
                        scrolled(old(self).scroll_start(monitor_id@), delta > 0),
                        sync_all,
                    )
                    &&& r == (ApplyAction::Restart {
                        delay_ms: APPLY_DELAY_MS,
                        has_monitors: final(self)@.state.rows.len() > 0,
                    })
                },
                ApplyEvent::RefreshRequested => {
                    &&& final(self)@ == old(self)@.refreshing()
                    &&& r == (ApplyAction::StopAndRefresh {
                        request_id: old(self)@.next_request_id,
                    })
                },
                ApplyEvent::DelayEnded => {
                    &&& final(self)@ == old(self)@.delay_ended()
                    &&& if old(self)@.state.pending == Map::<Seq<char>, i32>::empty() {
                        r == ApplyAction::Nothing
                    } else {
                        r matches ApplyAction::Apply { request_id, updates } && {
                            &&& request_id == old(self)@.next_request_id
                            &&& one_for_each(updates@)
                            &&& requested(updates@) == old(self)@.state.pending
                        }
                    }
                },
            },
    {
        match event {
            ApplyEvent::Changed { monitor_id, value, sync_all } => {
                let has_monitors = self.update_brightness(monitor_id, value, sync_all);
                ApplyAction::Restart { delay_ms: APPLY_DELAY_MS, has_monitors }
            },
            ApplyEvent::Scrolled { monitor_id, delta, sync_all } => {
                let has_monitors = self.scroll_brightness(monitor_id, delta, sync_all);
                ApplyAction::Restart { delay_ms: APPLY_DELAY_MS, has_monitors }
            },
            ApplyEvent::RefreshRequested => {
                ApplyAction::StopAndRefresh { request_id: self.request_refresh() }
            },
            ApplyEvent::DelayEnded => match self.request_apply() {
                Some((request_id, updates)) => ApplyAction::Apply { request_id, updates },
                None => ApplyAction::Nothing,
            },
        }
    }

    /// Whether another request can be counted.
    pub fn can_track(&self) -> (r: bool)
        ensures
            r == (self@.pending_requests < usize::MAX),
    {
        self.pending_worker_requests < usize::MAX
    }

    /// Counts a request that the worker has. Returns whether the worker has to be asked for events
    /// from now on.
    pub fn track_worker_request(&mut self) -> (r: bool)
        requires
            old(self).wf(),
            old(self)@.pending_requests < usize::MAX,
        ensures
            final(self).wf(),
            final(self)@ == (SessionModel {
                pending_requests: old(self)@.pending_requests + 1,
                ..old(self)@
            }),
            r == (old(self)@.pending_requests == 0),
    {
        self.pending_worker_requests = self.pending_worker_requests + 1;
        self.pending_worker_requests == 1
    }

    /// Takes note of whether the worker has a request to look for monitors.
    pub fn refresh_queued(&mut self, accepted: bool) -> (r: Queued)
        requires
            old(self).wf(),
            accepted ==> old(self)@.pending_requests < usize::MAX,
        ensures
            final(self).wf(),
            final(self)@.pending_requests == old(self)@.pending_requests + if accepted {
                1int
            } else {
                0int
            },
            final(self)@ == (SessionModel {
                pending_requests: final(self)@.pending_requests,
                ..old(self)@
            }),
            r == if !accepted {
                Queued::Refused(Status::RefreshFailed)
            } else if old(self)@.pending_requests == 0 {
                Queued::StartPolling
            } else {
                Queued::Waiting
            },
    {
        if !accepted {
            return Queued::Refused(Status::RefreshFailed);
        }
        if self.track_worker_request() {
            Queued::StartPolling
        } else {
            Queued::Waiting
        }
    }

    /// Takes note of whether the worker has a request to apply changes.
    pub fn apply_queued(&mut self, accepted: bool) -> (r: Queued)
        requires
            old(self).wf(),
            accepted ==> old(self)@.pending_requests < usize::MAX,
        ensures
            final(self).wf(),
            final(self)@.pending_requests == old(self)@.pending_requests + if accepted {
                1int
            } else {
                0int
            },
            final(self)@ == (SessionModel {
                pending_requests: final(self)@.pending_requests,
                ..old(self)@
            }),
            r == if !accepted {
                Queued::Refused(Status::ApplyFailed)
            } else if old(self)@.pending_requests == 0 {
                Queued::StartPolling
            } else {
                Queued::Waiting
            },
    {
        if !accepted {
            return Queued::Refused(Status::ApplyFailed);
        }
        if self.track_worker_request() {
            Queued::StartPolling
        } else {
            Queued::Waiting
        }
    }

    /// Takes note that the worker has answered a request. Returns whether there is no other, so
    /// that the worker need not be asked for events any more.
    pub fn finish_worker_request(&mut self) -> (r: bool)
        requires
            old(self).wf(),
        ensures
            final(self).wf(),
            final(self)@ == (SessionModel {
                pending_requests: if old(self)@.pending_requests == 0 {
                    0
                } else {
                    (old(self)@.pending_requests - 1) as nat
                },
                ..old(self)@
            }),
            r == (final(self)@.pending_requests == 0),
    {
        if self.pending_worker_requests > 0 {
            self.pending_worker_requests = self.pending_worker_requests - 1;
        }
        self.pending_worker_requests == 0
    }

    /// Takes note that the worker is gone. It need not be asked for events any more.
    pub fn worker_disconnected(&mut self) -> (r: Status)
        requires
            old(self).wf(),
        ensures
            final(self).wf(),
            final(self)@ == (SessionModel { pending_requests: 0, ..old(self)@ }),
            r == Status::ServiceStopped,
    {
        self.pending_worker_requests = 0;
        Status::ServiceStopped
    }

    /// Shows what looking for monitors gave, where it is the answer to the latest request; nothing
    /// is returned where it is not. Where looking for monitors failed, what is shown stays.
    pub fn handle_refresh_result(
        &mut self,
        request_id: u64,
        result: Result<RefreshResult, String>,
    ) -> (r: Option<Notice>)
        requires
            old(self).wf(),
        ensures
            final(self).wf(),
            final(self)@ == old(self)@.refreshed(request_id, result),
            match r {
                None => request_id != old(self)@.latest_refresh_id,
                Some(notice) => {
                    &&& request_id == old(self)@.latest_refresh_id
                    &&& match result {
                        Ok(found) => {
                            &&& notice.status == if found.warnings@.len() > 0 {
                                Status::RefreshIncomplete
                            } else {
                                Status::Clear
                            }
                            &&& views(notice.log@) == views(found.warnings@)
                        },
                        Err(error) => {
                            &&& notice.status == Status::RefreshFailed
                            &&& views(notice.log@) == seq![
                                "failed to refresh monitors: "@ + error@,
                            ]
                        },
                    }
                },
            },
    {
        if request_id != self.latest_refresh_id {
            return None;
        }
        match result {
            Ok(found) => {
                let status = if found.warnings.len() > 0 {
                    Status::RefreshIncomplete
                } else {
                    Status::Clear
                };
                self.state.replace_snapshots(found.snapshots);
                Some(Notice { status, log: found.warnings })
            },
            Err(error) => {
                let mut log: Vec<String> = Vec::new();
                log.push(concat("failed to refresh monitors: ", error.as_str()));
                assert(views(log@) =~= seq!["failed to refresh monitors: "@ + error@]);
                Some(Notice { status: Status::RefreshFailed, log })
            },
        }
    }

    /// Shows what came of changes that were applied.
    pub fn handle_apply_report(&mut self, report: ApplyReport) -> (r: Notice)
        requires
            old(self).wf(),
        ensures
            final(self).wf(),
            final(self)@ == (SessionModel {
                state: old(self)@.state.reconciled_all(report.outcomes@),
                ..old(self)@
            }),
            views(r.log@) == failure_texts(report.outcomes@),
            r.status == if failure_texts(report.outcomes@).len() == 0 {
                Status::Clear
            } else {
                Status::ApplyFailed
            },
    {
        let log = self.state.reconcile_apply_report(report);
        assert(views(log@).len() == log@.len());
        let status = if log.len() == 0 {
            Status::Clear
        } else {
            Status::ApplyFailed
        };
        Notice { status, log }
    }
}

/// An answer to a request that is not the latest one to look for monitors changes nothing.
pub proof fn outdated_answer_is_ignored(
    session: SessionModel,
    request_id: u64,
    result: Result<RefreshResult, String>,
)
    requires
        request_id != session.latest_refresh_id,
    ensures
        session.refreshed(request_id, result) == session,
{
}

/// After a request to look for monitors, the answer to that request is shown, and the answer to
/// the request before it is not.
pub proof fn latest_refresh_wins(session: SessionModel, result: Result<RefreshResult, String>)
    requires
        session.next_request_id > 0,
        result is Ok,
    ensures
        ({
            let first = session.refreshing();
            let second = first.refreshing();
            &&& second.refreshed(second.latest_refresh_id, result).state.rows == snapshot_rows(
                result->Ok_0.snapshots@,
            )
            &&& second.refreshed(first.latest_refresh_id, result) == second
        }),
{
}

/// When the delay ends, where it runs, after its timer was told what to do at some time, both in
/// milliseconds. The timer runs once: at the end of the delay it stops by itself.
pub open spec fn delay_end(action: ApplyAction, now: int) -> Option<int> {
    match action {
        ApplyAction::Restart { delay_ms, .. } => Some(now + delay_ms),
        _ => None,
    }
}

/// A brightness that was chosen at some time, in milliseconds.
pub struct TimedChange {
    pub at: int,
    pub id: Seq<char>,
    pub value: int,
    pub sync_all: bool,
}

impl TimedChange {
    /// Whether an action is the one that the change gives in a session.
    pub open spec fn gives(self, session: SessionModel, action: ApplyAction) -> bool {
        action == (ApplyAction::Restart {
            delay_ms: APPLY_DELAY_MS,
            has_monitors: session.chosen(self.id, self.value, self.sync_all).state.rows.len() > 0,
        })
    }
}

/// The session after changes.
pub open spec fn after_changes(session: SessionModel, changes: Seq<TimedChange>) -> SessionModel
    decreases changes.len(),
{
    if changes.len() == 0 {
        session
    } else {
        let change = changes.last();
        after_changes(session, changes.drop_last()).chosen(
            change.id,
            change.value,
            change.sync_all,
        )
    }
}

/// Whether the actions are those that the changes of a list give, one after the other.
pub open spec fn actions_of_changes(
    session: SessionModel,
    changes: Seq<TimedChange>,
    actions: Seq<ApplyAction>,
) -> bool {
    actions.len() == changes.len() && forall|k: int|
        0 <= k < changes.len() ==> (#[trigger] changes[k]).gives(
            after_changes(session, changes.take(k)),
            actions[k],
        )
}

/// Changes that follow each other in less than the delay are applied together. The delay that one
/// of them starts does not end before the next one starts it again; it ends once, so long after
/// the last one, and what waits then is what all of them left, whereas nothing waits afterwards.
pub proof fn changes_are_applied_together(
    session: SessionModel,
    changes: Seq<TimedChange>,
    actions: Seq<ApplyAction>,
)
    requires
        changes.len() > 0,
        forall|k: int|
            0 < k < changes.len() ==> 0 <= (#[trigger] changes[k]).at - changes[k - 1].at
                < APPLY_DELAY_MS,
        actions_of_changes(session, changes, actions),
    ensures
        forall|k: int|
            0 < k < changes.len() ==> (delay_end(actions[k - 1], changes[k - 1].at) matches Some(
                end,
            ) && (#[trigger] changes[k]).at < end),
        delay_end(actions.last(), changes.last().at) == Some(changes.last().at + APPLY_DELAY_MS),
        ({
            let waiting = after_changes(session, changes);
            &&& waiting.next_request_id == session.next_request_id
            &&& waiting.delay_ended().state.pending == Map::<Seq<char>, i32>::empty()
            &&& waiting.delay_ended().delay_ended() == waiting.delay_ended()
            &&& waiting.delay_ended().next_request_id == if waiting.state.pending == Map::<
                Seq<char>,
                i32,
            >::empty() {
                session.next_request_id
            } else {
                following_request(session.next_request_id)
            }
        }),
{
    assert forall|k: int| 0 < k < changes.len() implies (delay_end(
        actions[k - 1],
        changes[k - 1].at,
    ) matches Some(end) && (#[trigger] changes[k]).at < end) by {
        let before = changes[k - 1];
        assert(before.gives(after_changes(session, changes.take(k - 1)), actions[k - 1]));
    }
    let last = changes.len() - 1;
    assert(changes[last].gives(after_changes(session, changes.take(last)), actions[last]));
    lemma_changes_take_no_number(session, changes);
}

/// Changes begin no request.
proof fn lemma_changes_take_no_number(session: SessionModel, changes: Seq<TimedChange>)
    ensures
        after_changes(session, changes).next_request_id == session.next_request_id,
    decreases changes.len(),
{
    if changes.len() > 0 {
        lemma_changes_take_no_number(session, changes.drop_last());
    }
}

/// A request to look for monitors stops the delay, and gives up what waits: where it comes before
/// the end of the delay, nothing of what was chosen before is applied.
pub proof fn refresh_gives_up_what_waits(session: SessionModel, now: int)
    ensures
        delay_end(
            ApplyAction::StopAndRefresh { request_id: session.next_request_id },
            now,
        ) is None,
        session.refreshing().state.pending == Map::<Seq<char>, i32>::empty(),
        session.refreshing().delay_ended() == session.refreshing(),
{
}

/// The number of the request that comes so many requests after another.
pub open spec fn request_number(first: u64, later: nat) -> u64
    decreases later,
{
    if later == 0 {
        first
    } else {
        following_request(request_number(first, (later - 1) as nat))
    }
}

/// The numbers count up and start again at one.
proof fn lemma_request_number(first: u64, later: nat)
    requires
        first > 0,
    ensures
        request_number(first, later) == (first - 1 + later) % (u64::MAX as int) + 1,
    decreases later,
{
    if later > 0 {
        lemma_request_number(first, (later - 1) as nat);
    }
}

/// No number is zero, and no two of so many requests that follow each other have the same one.
pub proof fn request_numbers_differ(first: u64, earlier: nat, later: nat)
    requires
        first > 0,
        earlier < later < earlier + u64::MAX,
    ensures
        request_number(first, earlier) > 0,
        request_number(first, earlier) != request_number(first, later),
{
    lemma_request_number(first, earlier);
    lemma_request_number(first, later);
}

} // verus!

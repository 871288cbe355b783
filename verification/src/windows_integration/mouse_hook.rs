//! Mouse clicks anywhere on the desktop, by a hook or by polling the buttons.
use std::collections::VecDeque;

use vstd::prelude::*;

use crate::text::{concat, concat3, decimal, decimal_string};
use crate::windows_integration::{GlobalMouseEvent, TryRecvError};

verus! {

/// How many events wait before further ones are dropped.
pub const EVENT_CAPACITY: usize = 64;

/// How many mouse buttons are watched: the left, the right and the middle one.
pub const BUTTON_COUNT: usize = 3;

/// The message that the left button was pressed.
pub const WM_LBUTTONDOWN: u32 = 0x0201;

/// The message that the right button was pressed.
pub const WM_RBUTTONDOWN: u32 = 0x0204;

/// The message that the middle button was pressed.
pub const WM_MBUTTONDOWN: u32 = 0x0207;

/// The mouse cannot be watched.
#[derive(Debug)]
pub struct MouseWatcherError {
    message: String,
}

impl View for MouseWatcherError {
    type V = Seq<char>;

    closed spec fn view(&self) -> Seq<char> {
        self.message@
    }
}

impl MouseWatcherError {
    /// The error with the given message.
    pub fn new(message: String) -> (r: Self)
        ensures
            r@ == message@,
    {
        MouseWatcherError { message }
    }

    /// The message of the error.
    pub fn to_string(&self) -> (r: String)
        ensures
            r@ == self@,
    {
        self.message.clone()
    }
}

/// Whether a message says that one of the watched buttons was pressed.
pub open spec fn button_message(message: u32) -> bool {
    message == WM_LBUTTONDOWN || message == WM_RBUTTONDOWN || message == WM_MBUTTONDOWN
}

/// The number after another, zero after the last.
pub open spec fn counted(n: u64) -> u64 {
    if n == u64::MAX {
        0
    } else {
        (n + 1) as u64
    }
}

/// The id of a click that follows a count of clicks. It is never zero.
pub open spec fn click_after(n: u64) -> u64 {
    if counted(n) == 0 {
        1
    } else {
        counted(n)
    }
}

/// What the hook knows: its count of clicks, the latest id, and the events that wait.
pub struct HookModel {
    pub next_click_id: u64,
    pub latest_click_id: u64,
    pub events: Seq<GlobalMouseEvent>,
}

impl HookModel {
    /// The state after a message reached the hook. A press counts whether or not there is room
    /// for its event.
    pub open spec fn observed(self, code: i32, message: u32, x: i32, y: i32) -> HookModel {
        if code >= 0 && button_message(message) {
            let click_id = click_after(self.next_click_id);
            HookModel {
                next_click_id: counted(self.next_click_id),
                latest_click_id: click_id,
                events: if self.events.len() < EVENT_CAPACITY {
                    self.events.push(GlobalMouseEvent::ButtonDown { click_id, x, y })
                } else {
                    self.events
                },
            }
        } else {
            self
        }
    }
}

/// What the hook knows.
pub struct HookState {
    next_click_id: u64,
    latest_click_id: u64,
    events: VecDeque<GlobalMouseEvent>,
}

impl View for HookState {
    type V = HookModel;

    closed spec fn view(&self) -> HookModel {
        HookModel {
            next_click_id: self.next_click_id,
            latest_click_id: self.latest_click_id,
            events: self.events@,
        }
    }
}

impl HookState {
    /// No more events wait than there is room for.
    pub open spec fn wf(self) -> bool {
        self@.events.len() <= EVENT_CAPACITY
    }

    /// A hook that no message has reached yet.
    pub fn new() -> (r: Self)
        ensures
            r.wf(),
            r@ == (HookModel { next_click_id: 0, latest_click_id: 0, events: seq![] }),
    {
        let r = HookState { next_click_id: 0, latest_click_id: 0, events: VecDeque::new() };
        assert(r.events@ =~= seq![]);
        r
    }

    /// Takes note of a message that reached the hook.
    pub fn observe(&mut self, code: i32, wparam: usize, x: i32, y: i32)
        requires
            old(self).wf(),
        ensures
            final(self).wf(),
            final(self)@ == old(self)@.observed(code, wparam as u32, x, y),
    {
        let message: u32 = #[verifier::truncate]
        (wparam as u32);
        if code >= 0 && (message == WM_LBUTTONDOWN || message == WM_RBUTTONDOWN || message
            == WM_MBUTTONDOWN) {
            let counted: u64 = self.next_click_id.wrapping_add(1);
            let click_id: u64 = if counted == 0 {
                1
            } else {
                counted
            };
            self.next_click_id = counted;
            self.latest_click_id = click_id;
            if self.events.len() < EVENT_CAPACITY {
                self.events.push_back(GlobalMouseEvent::ButtonDown { click_id, x, y });
            }
        }
    }

    /// The event that has waited longest.
    pub fn try_recv(&mut self) -> (r: Result<GlobalMouseEvent, TryRecvError>)
        requires
            old(self).wf(),
        ensures
            final(self).wf(),
            if old(self)@.events.len() == 0 {
                r == Err::<GlobalMouseEvent, TryRecvError>(TryRecvError::Empty) && final(self)@
                    == old(self)@
            } else {
                r == Ok::<GlobalMouseEvent, TryRecvError>(old(self)@.events[0]) && final(self)@
                    == (HookModel { events: old(self)@.events.drop_first(), ..old(self)@ })
            },
    {
        match self.events.pop_front() {
            Some(event) => {
                assert(self.events@ =~= old(self).events@.drop_first());
                Ok(event)
            },
            None => Err(TryRecvError::Empty),
        }
    }

    /// Forgets the events that wait.
    pub fn drain(&mut self)
        ensures
            final(self).wf(),
            final(self)@ == (HookModel { events: seq![], ..old(self)@ }),
    {
        self.events.clear();
        assert(self.events@ =~= seq![]);
    }

    /// The id of the latest click.
    pub fn latest_click_id(&self) -> (r: u64)
        ensures
            r == self@.latest_click_id,
    {
        self.latest_click_id
    }
}

/// Whether a button sample shows a click: the button has gone down, or has been down since the
/// sample before.
pub open spec fn click_observed(was_pressed: bool, state: i16) -> bool {
    (state < 0 && !was_pressed) || state % 2 != 0
}

/// Whether a button sample shows a click. A negative sample means that the button is down, an
/// odd one that it was pressed since the sample before.
pub fn button_click_observed(was_pressed: bool, state: i16) -> (r: bool)
    ensures
        r == click_observed(was_pressed, state),
{
    let pressed: bool = state < 0;
    let bits: u16 = #[verifier::truncate]
    (state as u16);
    let pressed_since_last_sample: bool = bits & 1 != 0;
    assert((bits & 1 != 0) == (state % 2 != 0)) by (bit_vector)
        requires
            bits == state as u16,
    ;
    (pressed && !was_pressed) || pressed_since_last_sample
}

/// What polling a button showed.
#[derive(Clone, Copy, Debug)]
pub struct ButtonReading {
    /// The sample of the button.
    pub state: i16,
    /// The place of the mouse, where it is known.
    pub cursor: Option<(i32, i32)>,
}

/// What polling knows: which buttons were down, its count of clicks and the latest id.
pub struct PollingModel {
    pub pressed: Seq<bool>,
    pub next_click_id: u64,
    pub latest_click_id: u64,
}

impl PollingModel {
    /// The state after a sample of a button.
    pub open spec fn sampled(self, button: int, state: i16) -> PollingModel {
        PollingModel { pressed: self.pressed.update(button, state < 0), ..self }
    }

    /// The state after a click was reported.
    pub open spec fn clicked(self) -> PollingModel {
        PollingModel {
            next_click_id: click_after(self.next_click_id),
            latest_click_id: click_after(self.next_click_id),
            ..self
        }
    }

    /// Whether a reading of a button is to be reported: it shows a click, and the place of the
    /// mouse is known.
    pub open spec fn reports(self, button: int, reading: ButtonReading) -> bool {
        click_observed(self.pressed[button], reading.state) && reading.cursor is Some
    }

    /// The state after the buttons were polled from the given one on, up to the first click
    /// that is reported, and the event of that click.
    pub open spec fn polled(self, readings: Seq<ButtonReading>, button: int) -> (
        PollingModel,
        Option<GlobalMouseEvent>,
    )
        decreases readings.len() - button,
    {
        if button < 0 || button >= readings.len() {
            (self, None)
        } else {
            let reading = readings[button];
            let next = self.sampled(button, reading.state);
            if self.reports(button, reading) {
                let place = reading.cursor->Some_0;
                (
                    next.clicked(),
                    Some(
                        GlobalMouseEvent::ButtonDown {
                            click_id: click_after(self.next_click_id),
                            x: place.0,
                            y: place.1,
                        },
                    ),
                )
            } else {
                next.polled(readings, button + 1)
            }
        }
    }

    /// The state after several rounds of polling, up to the first that reports no click.
    pub open spec fn drained(self, polls: Seq<Seq<ButtonReading>>) -> PollingModel
        decreases polls.len(),
    {
        if polls.len() == 0 {
            self
        } else {
            let (next, event) = self.polled(polls[0], 0);
            if event is Some {
                next.drained(polls.drop_first())
            } else {
                next
            }
        }
    }
}

/// Watches the mouse by polling its buttons.
pub struct PollingMouseWatcher {
    pressed: Vec<bool>,
    next_click_id: u64,
    latest_click_id: u64,
}

impl View for PollingMouseWatcher {
    type V = PollingModel;

    closed spec fn view(&self) -> PollingModel {
        PollingModel {
            pressed: self.pressed@,
            next_click_id: self.next_click_id,
            latest_click_id: self.latest_click_id,
        }
    }
}

impl PollingMouseWatcher {
    /// Every watched button has its state.
    pub open spec fn wf(self) -> bool {
        self@.pressed.len() == BUTTON_COUNT
    }

    /// A watcher that has sampled every button once.
    pub fn new(left: i16, right: i16, middle: i16) -> (r: Self)
        ensures
            r.wf(),
            r@ == (PollingModel {
                pressed: seq![left < 0, right < 0, middle < 0],
                next_click_id: 0,
                latest_click_id: 0,
            }),
    {
        let mut pressed: Vec<bool> = Vec::new();
        pressed.push(left < 0);
        pressed.push(right < 0);
        pressed.push(middle < 0);
        let r = PollingMouseWatcher { pressed, next_click_id: 0, latest_click_id: 0 };
        assert(r.pressed@ =~= seq![left < 0, right < 0, middle < 0]);
        r
    }

    /// Takes note of a sample of a button, and says whether it shows a click.
    pub fn sample(&mut self, button: usize, state: i16) -> (r: bool)
        requires
            old(self).wf(),
            button < BUTTON_COUNT,
        ensures
            final(self).wf(),
            r == click_observed(old(self)@.pressed[button as int], state),
            final(self)@ == old(self)@.sampled(button as int, state),
    {
        let click: bool = button_click_observed(self.pressed[button], state);
        self.pressed.set(button, state < 0);
        click
    }

    /// Reports a click at the given place.
    pub fn click(&mut self, x: i32, y: i32) -> (r: GlobalMouseEvent)
        requires
            old(self).wf(),
        ensures
            final(self).wf(),
            r == (GlobalMouseEvent::ButtonDown {
                click_id: click_after(old(self)@.next_click_id),
                x,
                y,
            }),
            final(self)@ == old(self)@.clicked(),
    {
        let counted: u64 = self.next_click_id.wrapping_add(1);
        let click_id: u64 = if counted == 0 {
            1
        } else {
            counted
        };
        self.next_click_id = click_id;
        self.latest_click_id = click_id;
        GlobalMouseEvent::ButtonDown { click_id, x, y }
    }

    /// Polls the buttons in order, up to the first click whose place is known. What stands for
    /// the buttons after it is not looked at.
    pub fn try_event(&mut self, readings: &[ButtonReading]) -> (r: Result<
        GlobalMouseEvent,
        TryRecvError,
    >)
        requires
            old(self).wf(),
            readings@.len() == BUTTON_COUNT,
        ensures
            final(self).wf(),
            final(self)@ == old(self)@.polled(readings@, 0).0,
            match r {
                Ok(event) => old(self)@.polled(readings@, 0).1 == Some(event),
                Err(error) => old(self)@.polled(readings@, 0).1 is None && error
                    == TryRecvError::Empty,
            },
    {
        let ghost start = self@;
        let mut button: usize = 0;
        while button < readings.len()
            invariant
                button <= readings@.len(),
                readings@.len() == BUTTON_COUNT,
                self.wf(),
                start == old(self)@,
                start.polled(readings@, 0) == self@.polled(readings@, button as int),
            decreases readings@.len() - button,
        {
            let reading: ButtonReading = readings[button];
            if self.sample(button, reading.state) {
                match reading.cursor {
                    Some((x, y)) => {
                        return Ok(self.click(x, y));
                    },
                    None => {},
                }
            }
            button += 1;
        }
        Err(TryRecvError::Empty)
    }

    /// Polls until a round reports no click.
    pub fn drain(&mut self, polls: &[Vec<ButtonReading>])
        requires
            old(self).wf(),
            forall|i: int|
                0 <= i < polls@.len() ==> (#[trigger] polls@[i])@.len() == BUTTON_COUNT,
        ensures
            final(self).wf(),
            final(self)@ == old(self)@.drained(rounds(polls@)),
    {
        let ghost start = self@;
        let ghost all = rounds(polls@);
        let mut i: usize = 0;
        assert(all.skip(0) =~= all);
        while i < polls.len()
            invariant
                i <= polls@.len(),
                self.wf(),
                start == old(self)@,
                all == rounds(polls@),
                forall|k: int|
                    0 <= k < polls@.len() ==> (#[trigger] polls@[k])@.len() == BUTTON_COUNT,
                start.drained(all) == self@.drained(all.skip(i as int)),
            decreases polls@.len() - i,
        {
            let ghost rest = all.skip(i as int);
            assert(rest.drop_first() =~= all.skip(i + 1));
            if self.try_event(&polls[i]).is_err() {
                return;
            }
            i += 1;
        }
    }

    /// The id of the latest click.
    pub fn latest_click_id(&self) -> (r: u64)
        ensures
            r == self@.latest_click_id,
    {
        self.latest_click_id
    }
}

/// The readings of several rounds of polling.
pub open spec fn rounds(polls: Seq<Vec<ButtonReading>>) -> Seq<Seq<ButtonReading>> {
    Seq::new(polls.len(), |i: int| polls[i]@)
}

/// Where clicks come from.
pub enum MouseSource {
    Hook(HookState),
    Polling(PollingMouseWatcher),
}

/// Where clicks come from.
pub enum SourceModel {
    Hook(HookModel),
    Polling(PollingModel),
}

/// What came of starting the hook.
pub enum HookStart {
    /// The hook's thread could not be started.
    SpawnFailed(String),
    /// The hook's thread did not report in time.
    NotReady(String),
    /// The hook's thread reported that it could not install the hook.
    Refused(String),
    /// The hook is installed.
    Installed,
}

/// What is wrong with a hook that was to be started.
pub open spec fn hook_start_error(start: HookStart) -> Option<Seq<char>> {
    match start {
        HookStart::SpawnFailed(error) => Some("failed to start mouse hook: "@ + error@),
        HookStart::NotReady(error) => Some("mouse hook did not initialize: "@ + error@),
        HookStart::Refused(error) => Some(error@),
        HookStart::Installed => None,
    }
}

/// What the hook's thread has to do.
pub enum HookThreadStep {
    /// Report the message and end.
    Refuse(String),
    /// Take the hook out, report the message and end.
    UnhookAndRefuse(String),
    /// Report that the hook is installed.
    Ready,
}

/// What the hook's thread has to do, from the hook's handle, zero where it could not be
/// installed, the error code, and whether another hook of this process was there before.
pub fn hook_thread_step(hook: usize, error: u32, already_initialized: bool) -> (r: HookThreadStep)
    ensures
        match r {
            HookThreadStep::Refuse(message) => hook == 0 && message@
                == "SetWindowsHookExW failed (win32 error "@ + decimal(error as nat) + ")"@,
            HookThreadStep::UnhookAndRefuse(message) => hook != 0 && already_initialized && message@
                == "mouse hook was already initialized"@,
            HookThreadStep::Ready => hook != 0 && !already_initialized,
        },
{
    if hook == 0 {
        let number = decimal_string(error as u64);
        return HookThreadStep::Refuse(
            concat3("SetWindowsHookExW failed (win32 error ", number.as_str(), ")"),
        );
    }
    if already_initialized {
        return HookThreadStep::UnhookAndRefuse("mouse hook was already initialized".to_owned());
    }
    HookThreadStep::Ready
}

/// The place that a process has for its one hook. A process keeps one such slot.
#[derive(Debug)]
pub struct HookSlot {
    taken: bool,
}

impl View for HookSlot {
    type V = bool;

    closed spec fn view(&self) -> bool {
        self.taken
    }
}

impl HookSlot {
    /// A slot that no hook has taken yet.
    pub fn new() -> (r: Self)
        ensures
            !r@,
    {
        HookSlot { taken: false }
    }

    /// Takes the slot for a hook that was installed, and says what its thread has to do: report
    /// that it is ready where the slot was free, and take itself out where it was not. A hook that
    /// could not be installed takes no slot.
    pub fn start(&mut self, hook: usize, error: u32) -> (r: HookThreadStep)
        ensures
            final(self)@ == (old(self)@ || hook != 0),
            match r {
                HookThreadStep::Refuse(message) => hook == 0 && message@
                    == "SetWindowsHookExW failed (win32 error "@ + decimal(error as nat) + ")"@,
                HookThreadStep::UnhookAndRefuse(message) => hook != 0 && old(self)@ && message@
                    == "mouse hook was already initialized"@,
                HookThreadStep::Ready => hook != 0 && !old(self)@,
            },
    {
        let already_initialized = self.taken;
        if hook != 0 {
            self.taken = true;
        }
        hook_thread_step(hook, error, already_initialized)
    }
}

/// Whether the slot of a process is taken after hooks were started with the given handles.
pub open spec fn slot_after(taken: bool, hooks: Seq<usize>) -> bool
    decreases hooks.len(),
{
    if hooks.len() == 0 {
        taken
    } else {
        slot_after(taken, hooks.drop_last()) || hooks.last() != 0
    }
}

/// Whether the start of a hook with the given place in the list ends with the hook installed.
pub open spec fn stays_installed(taken: bool, hooks: Seq<usize>, i: int) -> bool {
    hooks[i] != 0 && !slot_after(taken, hooks.take(i))
}

/// Of all hooks that a process starts, one at most stays installed, and none does once the slot
/// is taken.
pub proof fn one_hook_for_each_process(taken: bool, hooks: Seq<usize>, i: int, j: int)
    requires
        0 <= i <= j < hooks.len(),
        taken || i < j && stays_installed(taken, hooks, i),
    ensures
        !stays_installed(taken, hooks, j),
    decreases hooks.len(),
{
    lemma_slot_stays_taken(taken, hooks.take(j), if taken { -1 } else { i });
    if !taken {
        assert(hooks.take(j)[i] == hooks[i]);
    }
}

/// A slot that was taken, before or by a hook of the list, is taken afterwards.
proof fn lemma_slot_stays_taken(taken: bool, hooks: Seq<usize>, i: int)
    requires
        taken || 0 <= i < hooks.len() && hooks[i] != 0,
    ensures
        slot_after(taken, hooks),
    decreases hooks.len(),
{
    if hooks.len() > 0 && hooks.last() == 0 {
        lemma_slot_stays_taken(taken, hooks.drop_last(), i);
    }
}

/// Watches the mouse anywhere on the desktop.
pub struct GlobalMouseWatcher {
    source: MouseSource,
}

impl View for GlobalMouseWatcher {
    type V = SourceModel;

    closed spec fn view(&self) -> SourceModel {
        match self.source {
            MouseSource::Hook(state) => SourceModel::Hook(state@),
            MouseSource::Polling(watcher) => SourceModel::Polling(watcher@),
        }
    }
}

impl GlobalMouseWatcher {
    /// The watcher's source is in order.
    pub open spec fn wf(self) -> bool {
        match self@ {
            SourceModel::Hook(state) => state.events.len() <= EVENT_CAPACITY,
            SourceModel::Polling(watcher) => watcher.pressed.len() == BUTTON_COUNT,
        }
    }

    /// A watcher by a hook, where the hook could be installed.
    pub fn new(start: HookStart) -> (r: Result<Self, MouseWatcherError>)
        ensures
            match r {
                Ok(watcher) => {
                    &&& hook_start_error(start) is None
                    &&& watcher.wf()
                    &&& watcher@ == SourceModel::Hook(
                        HookModel { next_click_id: 0, latest_click_id: 0, events: seq![] },
                    )
                },
                Err(error) => hook_start_error(start) == Some(error@),
            },
    {
        match start {
            HookStart::Installed => Ok(
                GlobalMouseWatcher { source: MouseSource::Hook(HookState::new()) },
            ),
            HookStart::Refused(error) => Err(MouseWatcherError::new(error)),
            HookStart::SpawnFailed(error) => Err(
                MouseWatcherError::new(concat("failed to start mouse hook: ", error.as_str())),
            ),
            HookStart::NotReady(error) => Err(
                MouseWatcherError::new(concat("mouse hook did not initialize: ", error.as_str())),
            ),
        }
    }

    /// A watcher by polling that has sampled every button once.
    pub fn polling(left: i16, right: i16, middle: i16) -> (r: Self)
        ensures
            r.wf(),
            r@ == SourceModel::Polling(
                PollingModel {
                    pressed: seq![left < 0, right < 0, middle < 0],
                    next_click_id: 0,
                    latest_click_id: 0,
                },
            ),
    {
        GlobalMouseWatcher {
            source: MouseSource::Polling(PollingMouseWatcher::new(left, right, middle)),
        }
    }

    /// Takes note of a message that reached the hook. A watcher by polling has none.
    pub fn observe(&mut self, code: i32, wparam: usize, x: i32, y: i32)
        requires
            old(self).wf(),
        ensures
            final(self).wf(),
            final(self)@ == match old(self)@ {
                SourceModel::Hook(state) => SourceModel::Hook(
                    state.observed(code, wparam as u32, x, y),
                ),
                SourceModel::Polling(watcher) => SourceModel::Polling(watcher),
            },
    {
        match &mut self.source {
            MouseSource::Hook(state) => state.observe(code, wparam, x, y),
            MouseSource::Polling(_) => {},
        }
    }

    /// The next event: the one that has waited longest at the hook, or the one that polling the
    /// buttons shows. Where there is a hook, the readings are not looked at.
    pub fn try_recv(&mut self, readings: &[ButtonReading]) -> (r: Result<
        GlobalMouseEvent,
        TryRecvError,
    >)
        requires
            old(self).wf(),
            old(self)@ is Polling ==> readings@.len() == BUTTON_COUNT,
        ensures
            final(self).wf(),
            match old(self)@ {
                SourceModel::Hook(state) => if state.events.len() == 0 {
                    r == Err::<GlobalMouseEvent, TryRecvError>(TryRecvError::Empty) && final(self)@
                        == old(self)@
                } else {
                    r == Ok::<GlobalMouseEvent, TryRecvError>(state.events[0]) && final(self)@
                        == SourceModel::Hook(
                        HookModel { events: state.events.drop_first(), ..state },
                    )
                },
                SourceModel::Polling(watcher) => {
                    let (next, event) = watcher.polled(readings@, 0);
                    &&& final(self)@ == SourceModel::Polling(next)
                    &&& r == match event {
                        Some(event) => Ok::<GlobalMouseEvent, TryRecvError>(event),
                        None => Err(TryRecvError::Empty),
                    }
                },
            },
    {
        match &mut self.source {
            MouseSource::Hook(state) => state.try_recv(),
            MouseSource::Polling(watcher) => watcher.try_event(readings),
        }
    }

    /// Forgets the events that wait at the hook, or polls until a round reports no click. Where
    /// there is a hook, the readings are not looked at.
    pub fn drain(&mut self, polls: &[Vec<ButtonReading>])
        requires
            old(self).wf(),
            old(self)@ is Polling ==> forall|i: int|
                0 <= i < polls@.len() ==> (#[trigger] polls@[i])@.len() == BUTTON_COUNT,
        ensures
            final(self).wf(),
            final(self)@ == match old(self)@ {
                SourceModel::Hook(state) => SourceModel::Hook(
                    HookModel { events: seq![], ..state },
                ),
                SourceModel::Polling(watcher) => SourceModel::Polling(
                    watcher.drained(rounds(polls@)),
                ),
            },
    {
        match &mut self.source {
            MouseSource::Hook(state) => state.drain(),
            MouseSource::Polling(watcher) => watcher.drain(polls),
        }
    }

    /// The id of the latest click.
    pub fn latest_click_id(&self) -> (r: u64)
        ensures
            r == match self@ {
                SourceModel::Hook(state) => state.latest_click_id,
                SourceModel::Polling(watcher) => watcher.latest_click_id,
            },
    {
        match &self.source {
            MouseSource::Hook(state) => state.latest_click_id(),
            MouseSource::Polling(watcher) => watcher.latest_click_id(),
        }
    }
}

/// The events that a hook hands out carry the ids of their clicks in the order of the clicks:
/// after any messages, the events that wait have ascending ids, none later than the latest,
/// as long as the count has not run over.
pub open spec fn ids_in_order(state: HookModel) -> bool {
    &&& state.latest_click_id == state.next_click_id
    &&& forall|i: int, j: int|
        0 <= i < j < state.events.len() ==> (#[trigger] state.events[i])->click_id < (
        #[trigger] state.events[j])->click_id
    &&& forall|i: int|
        0 <= i < state.events.len() ==> (#[trigger] state.events[i])->click_id
            <= state.latest_click_id
}

/// A message keeps the order of the events that wait.
pub proof fn messages_keep_ids_in_order(state: HookModel, code: i32, message: u32, x: i32, y: i32)
    requires
        ids_in_order(state),
        state.next_click_id < u64::MAX,
    ensures
        ids_in_order(state.observed(code, message, x, y)),
{
}

/// Handing out an event keeps the order of those that still wait.
pub proof fn receiving_keeps_ids_in_order(state: HookModel)
    requires
        ids_in_order(state),
        state.events.len() > 0,
    ensures
        ids_in_order(HookModel { events: state.events.drop_first(), ..state }),
{
    let rest = state.events.drop_first();
    assert forall|i: int, j: int| 0 <= i < j < rest.len() implies (#[trigger] rest[i])->click_id < (
    #[trigger] rest[j])->click_id by {
        assert(rest[i] == state.events[i + 1] && rest[j] == state.events[j + 1]);
    }
    assert forall|i: int| 0 <= i < rest.len() implies (#[trigger] rest[i])->click_id
        <= state.latest_click_id by {
        assert(rest[i] == state.events[i + 1]);
    }
}

/// The clicks that polling reports are numbered one after the other: each has the number after
/// that of the click before it, and a round that reports none counts none.
pub proof fn reported_clicks_are_consecutive(
    watcher: PollingModel,
    readings: Seq<ButtonReading>,
    button: int,
)
    requires
        0 <= button,
    ensures
        ({
            let (next, event) = watcher.polled(readings, button);
            match event {
                Some(GlobalMouseEvent::ButtonDown { click_id, .. }) => {
                    &&& click_id == click_after(watcher.next_click_id)
                    &&& next.next_click_id == click_id
                },
                None => next.next_click_id == watcher.next_click_id,
            }
        }),
    decreases readings.len() - button,
{
    if button < readings.len() {
        let next = watcher.sampled(button, readings[button].state);
        reported_clicks_are_consecutive(next, readings, button + 1);
    }
}

/// Every reported click has an id other than zero, which is then the latest.
pub proof fn reported_clicks_have_the_latest_id(
    watcher: PollingModel,
    readings: Seq<ButtonReading>,
    button: int,
)
    requires
        0 <= button,
    ensures
        watcher.polled(readings, button).1 matches Some(GlobalMouseEvent::ButtonDown { click_id, .. })
            ==> click_id != 0 && click_id == watcher.polled(readings, button).0.latest_click_id,
        watcher.polled(readings, button).1 is None ==> watcher.polled(
            readings,
            button,
        ).0.latest_click_id == watcher.latest_click_id,
    decreases readings.len() - button,
{
    if button < readings.len() {
        let next = watcher.sampled(button, readings[button].state);
        reported_clicks_have_the_latest_id(next, readings, button + 1);
    }
}

} // verus!

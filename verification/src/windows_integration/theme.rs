//! The light and the dark theme of Windows.
use vstd::prelude::*;

use crate::text::{concat, concat3, decimal, decimal_string};

verus! {

/// The status of a registry call that succeeded.
pub const ERROR_SUCCESS: u32 = 0;

/// The status of a registry call for a value that is not there.
pub const ERROR_FILE_NOT_FOUND: u32 = 2;

/// The menu theme mode that forces dark menus.
pub const PREFERRED_APP_MODE_FORCE_DARK: i32 = 2;

/// The menu theme mode that forces light menus.
pub const PREFERRED_APP_MODE_FORCE_LIGHT: i32 = 3;

/// The name of the value that says whether the system uses the light theme.
pub open spec fn system_value() -> Seq<char> {
    "SystemUsesLightTheme"@
}

/// The name of the value that says whether applications use the light theme.
pub open spec fn apps_value() -> Seq<char> {
    "AppsUseLightTheme"@
}

/// A call to the system that failed.
#[derive(Clone, Copy, Debug)]
pub struct WindowsIntegrationError {
    pub context: &'static str,
    pub code: u32,
}

impl WindowsIntegrationError {
    /// Whether this is the error of the given call with the given code.
    pub open spec fn says(self, context: Seq<char>, code: u32) -> bool {
        self.context@ == context && self.code == code
    }

    /// The message of the error.
    pub open spec fn text(self) -> Seq<char> {
        self.context@ + " (win32 error "@ + decimal(self.code as nat) + ")"@
    }

    /// The message of the error.
    pub fn to_string(&self) -> (r: String)
        ensures
            r@ == self.text(),
    {
        let number = decimal_string(self.code as u64);
        let head = concat3(self.context, " (win32 error ", number.as_str());
        concat(head.as_str(), ")")
    }
}

/// The result of a call that succeeds with the status zero.
fn checked(context: &'static str, status: u32) -> (r: Result<(), WindowsIntegrationError>)
    ensures
        match r {
            Ok(()) => status == ERROR_SUCCESS,
            Err(error) => status != ERROR_SUCCESS && error.says(context@, status),
        },
{
    if status == ERROR_SUCCESS {
        Ok(())
    } else {
        Err(WindowsIntegrationError { context, code: status })
    }
}

/// Watches the registry key of the theme.
#[derive(Debug)]
pub struct WindowsThemeWatcher {
    key: usize,
}

impl View for WindowsThemeWatcher {
    type V = usize;

    closed spec fn view(&self) -> usize {
        self.key
    }
}

impl WindowsThemeWatcher {
    /// The watcher of an open key, from the status that opening it returned.
    pub fn new(status: u32, key: usize) -> (r: Result<Self, WindowsIntegrationError>)
        ensures
            match r {
                Ok(watcher) => status == ERROR_SUCCESS && watcher@ == key,
                Err(error) => status != ERROR_SUCCESS && error.says(
                    "RegOpenKeyExW theme watcher failed"@,
                    status,
                ),
            },
    {
        match checked("RegOpenKeyExW theme watcher failed", status) {
            Ok(()) => Ok(WindowsThemeWatcher { key }),
            Err(error) => Err(error),
        }
    }

    /// The open key.
    pub fn key(&self) -> (r: usize)
        ensures
            r == self@,
    {
        self.key
    }

    /// Whether the theme has changed, from the status that waiting for it returned.
    pub fn wait_for_change(&self, status: u32) -> (r: Result<(), WindowsIntegrationError>)
        ensures
            match r {
                Ok(()) => status == ERROR_SUCCESS,
                Err(error) => status != ERROR_SUCCESS && error.says(
                    "RegNotifyChangeKeyValue failed"@,
                    status,
                ),
            },
    {
        checked("RegNotifyChangeKeyValue failed", status)
    }
}

/// What is to become of the menu theme functions that were looked for.
#[derive(Clone, Copy, Debug, PartialEq, Eq, Structural)]
pub enum MenuThemeApi {
    /// The library could not be loaded.
    Missing,
    /// The library lacks a function and has to be released.
    Release,
    /// Both functions are there.
    Ready,
}

/// What is to become of the menu theme functions, from the handles of the library and of the
/// two functions, zero where there is none.
pub fn load_menu_theme_api(module: usize, set_mode: usize, flush: usize) -> (r: MenuThemeApi)
    ensures
        r == if module == 0 {
            MenuThemeApi::Missing
        } else if set_mode == 0 || flush == 0 {
            MenuThemeApi::Release
        } else {
            MenuThemeApi::Ready
        },
{
    if module == 0 {
        MenuThemeApi::Missing
    } else if set_mode == 0 || flush == 0 {
        MenuThemeApi::Release
    } else {
        MenuThemeApi::Ready
    }
}

/// The menu theme mode of a theme.
pub fn preferred_app_mode(dark_mode: bool) -> (r: i32)
    ensures
        r == if dark_mode {
            PREFERRED_APP_MODE_FORCE_DARK
        } else {
            PREFERRED_APP_MODE_FORCE_LIGHT
        },
{
    if dark_mode {
        PREFERRED_APP_MODE_FORCE_DARK
    } else {
        PREFERRED_APP_MODE_FORCE_LIGHT
    }
}

/// What reading a value from the registry returned.
#[derive(Clone, Copy, Debug)]
pub struct RegistryReading {
    pub status: u32,
    pub value: u32,
}

/// Whether the value could be read or is known to be missing.
pub open spec fn readable(reading: RegistryReading) -> bool {
    reading.status == ERROR_SUCCESS || reading.status == ERROR_FILE_NOT_FOUND
}

/// The value that was read, none where it is missing.
pub open spec fn read_value(reading: RegistryReading) -> Option<u32> {
    if reading.status == ERROR_SUCCESS {
        Some(reading.value)
    } else {
        None
    }
}

/// Whether a theme value means the dark theme. A value that is missing means the light one.
pub open spec fn is_dark(value: Option<u32>) -> bool {
    value == Some(0u32)
}

/// The value that was read, none where it is missing.
pub fn read_theme_registry_value_result(reading: RegistryReading) -> (r: Result<
    Option<u32>,
    WindowsIntegrationError,
>)
    ensures
        match r {
            Ok(value) => readable(reading) && value == read_value(reading),
            Err(error) => !readable(reading) && error.says(
                "RegGetValueW failed"@,
                reading.status,
            ),
        },
{
    if reading.status == ERROR_SUCCESS {
        Ok(Some(reading.value))
    } else if reading.status == ERROR_FILE_NOT_FOUND {
        Ok(None)
    } else {
        Err(WindowsIntegrationError { context: "RegGetValueW failed", code: reading.status })
    }
}

/// Whether a value is gone, from the status that deleting it returned.
pub fn delete_theme_registry_value(status: u32) -> (r: Result<(), WindowsIntegrationError>)
    ensures
        match r {
            Ok(()) => status == ERROR_SUCCESS || status == ERROR_FILE_NOT_FOUND,
            Err(error) => status != ERROR_SUCCESS && status != ERROR_FILE_NOT_FOUND && error.says(
                "RegDeleteKeyValueW failed"@,
                status,
            ),
        },
{
    if status == ERROR_FILE_NOT_FOUND {
        return Ok(());
    }
    checked("RegDeleteKeyValueW failed", status)
}

/// Whether a value is set, from the status that setting it returned.
pub fn set_theme_registry_value(status: u32) -> (r: Result<(), WindowsIntegrationError>)
    ensures
        match r {
            Ok(()) => status == ERROR_SUCCESS,
            Err(error) => status != ERROR_SUCCESS && error.says("RegSetKeyValueW failed"@, status),
        },
{
    checked("RegSetKeyValueW failed", status)
}

/// Whether a theme value means the dark theme.
pub fn theme_value_is_dark(value: Option<u32>) -> (r: bool)
    ensures
        r == is_dark(value),
{
    match value {
        Some(value) => value == 0,
        None => false,
    }
}

/// Whether a value that was read means the dark theme.
pub fn theme_registry_dark_mode(reading: RegistryReading) -> (r: Result<
    bool,
    WindowsIntegrationError,
>)
    ensures
        match r {
            Ok(dark) => readable(reading) && dark == is_dark(read_value(reading)),
            Err(error) => !readable(reading) && error.says(
                "RegGetValueW failed"@,
                reading.status,
            ),
        },
{
    match read_theme_registry_value_result(reading) {
        Ok(value) => Ok(theme_value_is_dark(value)),
        Err(error) => Err(error),
    }
}

/// The themes of applications and of the system.
#[derive(Clone, Copy, Debug, PartialEq, Eq, Structural)]
pub struct WindowsThemeState {
    pub apps_dark_mode: bool,
    pub system_dark_mode: bool,
}

/// The themes that two values mean.
pub open spec fn theme_state(apps: RegistryReading, system: RegistryReading) -> WindowsThemeState {
    WindowsThemeState {
        apps_dark_mode: is_dark(read_value(apps)),
        system_dark_mode: is_dark(read_value(system)),
    }
}

/// The status that stands in the way of reading the themes, that of the applications first.
pub open spec fn unreadable_status(apps: RegistryReading, system: RegistryReading) -> u32 {
    if !readable(apps) {
        apps.status
    } else {
        system.status
    }
}

/// The themes of applications and of the system.
pub fn windows_theme_state(apps: RegistryReading, system: RegistryReading) -> (r: Result<
    WindowsThemeState,
    WindowsIntegrationError,
>)
    ensures
        match r {
            Ok(state) => readable(apps) && readable(system) && state == theme_state(apps, system),
            Err(error) => !(readable(apps) && readable(system)) && error.says(
                "RegGetValueW failed"@,
                unreadable_status(apps, system),
            ),
        },
{
    let apps_dark_mode = match theme_registry_dark_mode(apps) {
        Ok(dark) => dark,
        Err(error) => {
            return Err(error);
        },
    };
    let system_dark_mode = match theme_registry_dark_mode(system) {
        Ok(dark) => dark,
        Err(error) => {
            return Err(error);
        },
    };
    Ok(WindowsThemeState { apps_dark_mode, system_dark_mode })
}

/// The theme that a toggle leads to: the other one, or that of the system where the two differ.
pub open spec fn next_dark_mode(state: WindowsThemeState) -> bool {
    if state.apps_dark_mode == state.system_dark_mode {
        !state.system_dark_mode
    } else {
        state.system_dark_mode
    }
}

/// Whether the system uses the dark theme.
pub fn windows_main_dark_mode(apps: RegistryReading, system: RegistryReading) -> (r: Result<
    bool,
    WindowsIntegrationError,
>)
    ensures
        match r {
            Ok(dark) => readable(apps) && readable(system) && dark == theme_state(
                apps,
                system,
            ).system_dark_mode,
            Err(error) => !(readable(apps) && readable(system)) && error.says(
                "RegGetValueW failed"@,
                unreadable_status(apps, system),
            ),
        },
{
    match windows_theme_state(apps, system) {
        Ok(state) => Ok(state.system_dark_mode),
        Err(error) => Err(error),
    }
}

/// The theme that a toggle leads to.
pub fn next_windows_dark_mode(apps: RegistryReading, system: RegistryReading) -> (r: Result<
    bool,
    WindowsIntegrationError,
>)
    ensures
        match r {
            Ok(dark) => readable(apps) && readable(system) && dark == next_dark_mode(
                theme_state(apps, system),
            ),
            Err(error) => !(readable(apps) && readable(system)) && error.says(
                "RegGetValueW failed"@,
                unreadable_status(apps, system),
            ),
        },
{
    match windows_theme_state(apps, system) {
        Ok(state) => Ok(
            if state.apps_dark_mode == state.system_dark_mode {
                !state.system_dark_mode
            } else {
                state.system_dark_mode
            },
        ),
        Err(error) => Err(error),
    }
}

/// A call to the registry and its reply.
pub enum RegistryCall<E> {
    Read { name: Seq<char>, found: Result<Option<u32>, E> },
    Write { name: Seq<char>, value: u32, reply: Result<(), E> },
    Delete { name: Seq<char>, reply: Result<(), E> },
}

/// A registry that holds the theme values. What a call replies is up to the registry; a contract
/// that speaks of a registry says which calls are made, and what follows from their replies.
pub trait ThemeRegistry {
    type Error;

    /// The calls that were made so far, with their replies. A registry that is verified itself
    /// says what they are.
    open spec fn calls(&self) -> Seq<RegistryCall<Self::Error>> {
        arbitrary()
    }

    /// Reads a value, none where it is missing.
    fn read(&mut self, name: &'static str) -> (r: Result<Option<u32>, Self::Error>)
        ensures
            final(self).calls() == old(self).calls().push(
                RegistryCall::Read { name: name@, found: r },
            ),
    ;

    /// Sets a value.
    fn write(&mut self, name: &'static str, value: u32) -> (r: Result<(), Self::Error>)
        ensures
            final(self).calls() == old(self).calls().push(
                RegistryCall::Write { name: name@, value, reply: r },
            ),
    ;

    /// Removes a value.
    fn delete(&mut self, name: &'static str) -> (r: Result<(), Self::Error>)
        ensures
            final(self).calls() == old(self).calls().push(
                RegistryCall::Delete { name: name@, reply: r },
            ),
    ;
}

/// Why the theme could not be changed.
#[derive(Debug)]
pub enum ThemeUpdateError<E> {
    /// A value could not be read or set; all values are as they were.
    Update(E),
    /// The value that was set first could not be restored.
    Rollback(E),
}

impl<E> ThemeUpdateError<E> {
    /// The error of the call that failed.
    pub fn into_error(self) -> (r: E)
        ensures
            r == match self {
                ThemeUpdateError::Update(error) => error,
                ThemeUpdateError::Rollback(error) => error,
            },
    {
        match self {
            ThemeUpdateError::Update(error) => error,
            ThemeUpdateError::Rollback(error) => error,
        }
    }
}

/// The call that restores a value to what it was.
pub open spec fn restoring_call<E>(
    name: Seq<char>,
    value: Option<u32>,
    reply: Result<(), E>,
) -> RegistryCall<E> {
    match value {
        Some(value) => RegistryCall::Write { name, value, reply },
        None => RegistryCall::Delete { name, reply },
    }
}

/// Restores a value to what it was: sets it, or removes it where it was missing.
pub fn restore_theme_registry_value<R: ThemeRegistry>(
    registry: &mut R,
    name: &'static str,
    value: Option<u32>,
) -> (r: Result<(), R::Error>)
    ensures
        final(registry).calls() == old(registry).calls().push(restoring_call(name@, value, r)),
{
    match value {
        Some(value) => registry.write(name, value),
        None => registry.delete(name),
    }
}

/// Whether the calls, and the result, are those of an update of both theme values: both are
/// read, the system's is set, then the applications'; where the latter fails, the former is
/// restored. The first call that fails ends the update.
pub open spec fn update_calls<E>(
    value: u32,
    calls: Seq<RegistryCall<E>>,
    result: Result<(), ThemeUpdateError<E>>,
) -> bool {
    &&& 1 <= calls.len()
    &&& calls[0] matches RegistryCall::Read { name, found: system }
    &&& name == system_value()
    &&& match system {
        Err(error) => calls.len() == 1 && result == Err::<(), _>(ThemeUpdateError::Update(error)),
        Ok(previous) => {
            &&& 2 <= calls.len()
            &&& calls[1] matches RegistryCall::Read { name, found: apps }
            &&& name == apps_value()
            &&& match apps {
                Err(error) => calls.len() == 2 && result == Err::<(), _>(
                    ThemeUpdateError::Update(error),
                ),
                Ok(_) => update_writes(value, previous, calls, result),
            }
        },
    }
}

/// The part of an update in which values are set.
pub open spec fn update_writes<E>(
    value: u32,
    previous: Option<u32>,
    calls: Seq<RegistryCall<E>>,
    result: Result<(), ThemeUpdateError<E>>,
) -> bool {
    &&& 3 <= calls.len()
    &&& calls[2] matches RegistryCall::Write { name, value: system, reply: first }
    &&& name == system_value() && system == value
    &&& match first {
        Err(error) => calls.len() == 3 && result == Err::<(), _>(ThemeUpdateError::Update(error)),
        Ok(()) => {
            &&& 4 <= calls.len()
            &&& calls[3] matches RegistryCall::Write { name, value: apps, reply: second }
            &&& name == apps_value() && apps == value
            &&& match second {
                Ok(()) => calls.len() == 4 && result == Ok::<(), ThemeUpdateError<E>>(()),
                Err(error) => calls.len() == 5 && exists|undo: Result<(), E>|
                    calls[4] == #[trigger] restoring_call(system_value(), previous, undo) && result
                        == match undo {
                        Ok(()) => Err::<(), _>(ThemeUpdateError::Update(error)),
                        Err(failure) => Err::<(), _>(ThemeUpdateError::Rollback(failure)),
                    },
            }
        },
    }
}

/// Sets both theme values, or neither.
pub fn update_theme_registry<R: ThemeRegistry>(registry: &mut R, value: u32) -> (r: Result<
    (),
    ThemeUpdateError<R::Error>,
>)
    ensures
        old(registry).calls().len() <= final(registry).calls().len(),
        final(registry).calls().take(old(registry).calls().len() as int) == old(registry).calls(),
        update_calls(
            value,
            final(registry).calls().skip(old(registry).calls().len() as int),
            r,
        ),
{
    let previous_system = match registry.read("SystemUsesLightTheme") {
        Ok(value) => value,
        Err(error) => {
            return Err(ThemeUpdateError::Update(error));
        },
    };
    match registry.read("AppsUseLightTheme") {
        Ok(_) => {},
        Err(error) => {
            return Err(ThemeUpdateError::Update(error));
        },
    }
    match registry.write("SystemUsesLightTheme", value) {
        Ok(()) => {},
        Err(error) => {
            return Err(ThemeUpdateError::Update(error));
        },
    }
    match registry.write("AppsUseLightTheme", value) {
        Ok(()) => Ok(()),
        Err(error) => {
            match restore_theme_registry_value(registry, "SystemUsesLightTheme", previous_system) {
                Ok(()) => Err(ThemeUpdateError::Update(error)),
                Err(failure) => Err(ThemeUpdateError::Rollback(failure)),
            }
        },
    }
}

/// The light theme value that means the given theme.
pub open spec fn light_theme_value(dark_mode: bool) -> u32 {
    if dark_mode {
        0
    } else {
        1
    }
}

/// What a caller learns of the result of an update: the error of the call that failed.
pub open spec fn flattened<E>(outcome: Result<(), ThemeUpdateError<E>>) -> Result<(), E> {
    match outcome {
        Ok(()) => Ok(()),
        Err(ThemeUpdateError::Update(error)) => Err(error),
        Err(ThemeUpdateError::Rollback(error)) => Err(error),
    }
}

/// Whether the calls that were added, and the result, are those of setting a theme.
pub open spec fn sets_theme<E>(
    before: Seq<RegistryCall<E>>,
    after: Seq<RegistryCall<E>>,
    dark_mode: bool,
    result: Result<(), E>,
) -> bool {
    &&& before.len() <= after.len()
    &&& after.take(before.len() as int) == before
    &&& exists|outcome: Result<(), ThemeUpdateError<E>>|
        #[trigger] update_calls(
            light_theme_value(dark_mode),
            after.skip(before.len() as int),
            outcome,
        ) && result == flattened(outcome)
}

/// Sets both theme values to the given theme, or neither. Where this succeeds, the change is to
/// be announced, as `change_windows_theme` says.
pub fn set_windows_dark_mode<R: ThemeRegistry>(registry: &mut R, dark_mode: bool) -> (r: Result<
    (),
    R::Error,
>)
    ensures
        sets_theme(old(registry).calls(), final(registry).calls(), dark_mode, r),
{
    let value: u32 = if dark_mode {
        0
    } else {
        1
    };
    let ghost earlier = registry.calls().len();
    let outcome = update_theme_registry(registry, value);
    assert(update_calls(
        light_theme_value(dark_mode),
        registry.calls().skip(earlier as int),
        outcome,
    ));
    match outcome {
        Ok(()) => Ok(()),
        Err(error) => Err(error.into_error()),
    }
}

/// The values after the calls, from those before them.
pub open spec fn values_after<E>(
    values: Map<Seq<char>, u32>,
    calls: Seq<RegistryCall<E>>,
) -> Map<Seq<char>, u32>
    decreases calls.len(),
{
    if calls.len() == 0 {
        values
    } else {
        let before = values_after(values, calls.drop_last());
        match calls.last() {
            RegistryCall::Write { name, value, reply: Ok(()) } => before.insert(name, value),
            RegistryCall::Delete { name, reply: Ok(()) } => before.remove(name),
            _ => before,
        }
    }
}

/// The value of a name.
pub open spec fn value_of(values: Map<Seq<char>, u32>, name: Seq<char>) -> Option<u32> {
    if values.dom().contains(name) {
        Some(values[name])
    } else {
        None
    }
}

/// Whether each read that succeeded found the value that the calls before it left.
pub open spec fn reads_are_faithful<E>(
    values: Map<Seq<char>, u32>,
    calls: Seq<RegistryCall<E>>,
) -> bool {
    forall|i: int|
        0 <= i < calls.len() ==> (#[trigger] calls[i] matches RegistryCall::Read {
            name,
            found: Ok(value),
        } ==> value == value_of(values_after(values, calls.take(i)), name))
}

/// The themes that the values mean.
pub open spec fn themes(values: Map<Seq<char>, u32>) -> WindowsThemeState {
    WindowsThemeState {
        apps_dark_mode: is_dark(value_of(values, apps_value())),
        system_dark_mode: is_dark(value_of(values, system_value())),
    }
}

/// An update changes both values or none: where it succeeds, both theme values are set and
/// nothing else has changed; where it fails and the first value could be restored, or was never
/// set, all values are as they were; only where restoring fails, the system's value stays set.
pub proof fn update_changes_both_values_or_none<E>(
    values: Map<Seq<char>, u32>,
    value: u32,
    calls: Seq<RegistryCall<E>>,
    result: Result<(), ThemeUpdateError<E>>,
)
    requires
        update_calls(value, calls, result),
        reads_are_faithful(values, calls),
    ensures
        values_after(values, calls) == match result {
            Ok(()) => values.insert(system_value(), value).insert(apps_value(), value),
            Err(ThemeUpdateError::Update(_)) => values,
            Err(ThemeUpdateError::Rollback(_)) => values.insert(system_value(), value),
        },
{
    reveal_with_fuel(values_after, 6);
    assert(calls.take(0) =~= Seq::empty());
    if calls.len() >= 2 {
        assert(calls.drop_last() =~= calls.take(calls.len() - 1));
        if calls.len() >= 3 {
            assert(calls.take(calls.len() - 1).drop_last() =~= calls.take(calls.len() - 2));
            if calls.len() >= 4 {
                assert(calls.take(calls.len() - 2).drop_last() =~= calls.take(calls.len() - 3));
                if calls.len() >= 5 {
                    assert(calls.take(calls.len() - 3).drop_last() =~= calls.take(
                        calls.len() - 4,
                    ));
                }
            }
        }
        assert(calls.take(1).drop_last() =~= calls.take(0));
    }
    assert(values_after(values, calls) =~= match result {
        Ok(()) => values.insert(system_value(), value).insert(apps_value(), value),
        Err(ThemeUpdateError::Update(_)) => values,
        Err(ThemeUpdateError::Rollback(_)) => values.insert(system_value(), value),
    });
}

/// Setting a theme gives applications and the system that theme.
pub proof fn set_theme_is_read_back(values: Map<Seq<char>, u32>, dark_mode: bool)
    ensures
        themes(
            values.insert(system_value(), light_theme_value(dark_mode)).insert(
                apps_value(),
                light_theme_value(dark_mode),
            ),
        ) == (WindowsThemeState { apps_dark_mode: dark_mode, system_dark_mode: dark_mode }),
{
    reveal_strlit("SystemUsesLightTheme");
    reveal_strlit("AppsUseLightTheme");
    assert(system_value().len() != apps_value().len());
}

/// A second toggle undoes the first where both themes were the same; where they differed, the
/// first toggle gives applications the theme of the system.
pub proof fn toggle_twice_restores_the_theme(state: WindowsThemeState)
    ensures
        ({
            let dark_mode = next_dark_mode(state);
            let toggled = WindowsThemeState {
                apps_dark_mode: dark_mode,
                system_dark_mode: dark_mode,
            };
            &&& next_dark_mode(toggled) == !dark_mode
            &&& state.apps_dark_mode == state.system_dark_mode ==> next_dark_mode(toggled)
                == state.system_dark_mode
            &&& state.apps_dark_mode != state.system_dark_mode ==> toggled.system_dark_mode
                == state.system_dark_mode
        }),
{
}

/// The message that the visual theme has changed.
pub const WM_THEMECHANGED: u32 = 0x031a;

/// The message that a system colour has changed.
pub const WM_SYSCOLORCHANGE: u32 = 0x0015;

/// The message that the colour of window frames has changed.
pub const WM_DWMCOLORIZATIONCOLORCHANGED: u32 = 0x0320;

/// A step by which windows are told that the theme has changed.
#[derive(Clone, Copy, Debug, PartialEq, Eq)]
pub enum ThemeNotice {
    /// The parameters of the user are read again.
    Parameters,
    /// A setting, or some setting, has changed.
    Setting(Option<&'static str>),
    /// A message is sent, sent without waiting, and posted.
    Message(u32),
    /// The windows of the taskbars with the given class get the steps of `notify_taskbar_window`.
    Taskbars(&'static str),
}

/// What a notice says.
pub enum NoticeModel {
    Parameters,
    Setting(Option<Seq<char>>),
    Message(u32),
    Taskbars(Seq<char>),
}

impl View for ThemeNotice {
    type V = NoticeModel;

    open spec fn view(&self) -> NoticeModel {
        match self {
            ThemeNotice::Parameters => NoticeModel::Parameters,
            ThemeNotice::Setting(Some(name)) => NoticeModel::Setting(Some(name@)),
            ThemeNotice::Setting(None) => NoticeModel::Setting(None),
            ThemeNotice::Message(message) => NoticeModel::Message(*message),
            ThemeNotice::Taskbars(class) => NoticeModel::Taskbars(class@),
        }
    }
}

/// What the notices say.
pub open spec fn notice_models(notices: Seq<ThemeNotice>) -> Seq<NoticeModel> {
    notices.map_values(|notice: ThemeNotice| notice@)
}

/// The settings that a change of the theme concerns.
pub open spec fn setting_notices() -> Seq<NoticeModel> {
    seq![
        NoticeModel::Setting(Some("ImmersiveColorSet"@)),
        NoticeModel::Setting(Some("WindowsThemeElement"@)),
        NoticeModel::Setting(Some("SystemUsesLightTheme"@)),
        NoticeModel::Setting(Some("AppsUseLightTheme"@)),
        NoticeModel::Setting(Some("Policy"@)),
    ]
}

/// The messages of a change of the theme.
pub open spec fn message_notices() -> Seq<NoticeModel> {
    seq![
        NoticeModel::Message(WM_THEMECHANGED),
        NoticeModel::Message(WM_SYSCOLORCHANGE),
        NoticeModel::Message(WM_DWMCOLORIZATIONCOLORCHANGED),
    ]
}

/// The notices for a window of the taskbar: the settings, then the messages.
pub fn notify_taskbar_window() -> (r: Vec<ThemeNotice>)
    ensures
        notice_models(r@) == setting_notices() + message_notices(),
{
    let mut notices: Vec<ThemeNotice> = Vec::new();
    notices.push(ThemeNotice::Setting(Some("ImmersiveColorSet")));
    notices.push(ThemeNotice::Setting(Some("WindowsThemeElement")));
    notices.push(ThemeNotice::Setting(Some("SystemUsesLightTheme")));
    notices.push(ThemeNotice::Setting(Some("AppsUseLightTheme")));
    notices.push(ThemeNotice::Setting(Some("Policy")));
    notices.push(ThemeNotice::Message(WM_THEMECHANGED));
    notices.push(ThemeNotice::Message(WM_SYSCOLORCHANGE));
    notices.push(ThemeNotice::Message(WM_DWMCOLORIZATIONCOLORCHANGED));
    notices
}

/// The notices of a change of the theme for all windows, in order: the settings one by one and
/// then as a whole, the messages, and the taskbars, between two updates of the parameters of the
/// user.
pub open spec fn change_notices() -> Seq<NoticeModel> {
    seq![NoticeModel::Parameters] + setting_notices() + seq![NoticeModel::Setting(None)]
        + message_notices() + seq![
        NoticeModel::Taskbars("Shell_TrayWnd"@),
        NoticeModel::Taskbars("Shell_SecondaryTrayWnd"@),
        NoticeModel::Parameters,
    ]
}

/// The notices after an attempt to change the theme: those of a change where it succeeded, and
/// none where it failed.
pub open spec fn announced(succeeded: bool) -> Seq<NoticeModel> {
    if succeeded {
        change_notices()
    } else {
        seq![]
    }
}

/// The notices of a change of the theme for all windows, in order.
pub fn broadcast_theme_change() -> (r: Vec<ThemeNotice>)
    ensures
        notice_models(r@) == change_notices(),
{
    let mut notices: Vec<ThemeNotice> = Vec::new();
    notices.push(ThemeNotice::Parameters);
    notices.push(ThemeNotice::Setting(Some("ImmersiveColorSet")));
    notices.push(ThemeNotice::Setting(Some("WindowsThemeElement")));
    notices.push(ThemeNotice::Setting(Some("SystemUsesLightTheme")));
    notices.push(ThemeNotice::Setting(Some("AppsUseLightTheme")));
    notices.push(ThemeNotice::Setting(Some("Policy")));
    notices.push(ThemeNotice::Setting(None));
    notices.push(ThemeNotice::Message(WM_THEMECHANGED));
    notices.push(ThemeNotice::Message(WM_SYSCOLORCHANGE));
    notices.push(ThemeNotice::Message(WM_DWMCOLORIZATIONCOLORCHANGED));
    notices.push(ThemeNotice::Taskbars("Shell_TrayWnd"));
    notices.push(ThemeNotice::Taskbars("Shell_SecondaryTrayWnd"));
    notices.push(ThemeNotice::Parameters);
    notices
}

/// The notices after an attempt to change the theme.
pub fn notices_after(succeeded: bool) -> (r: Vec<ThemeNotice>)
    ensures
        notice_models(r@) == announced(succeeded),
{
    if succeeded {
        broadcast_theme_change()
    } else {
        let none: Vec<ThemeNotice> = Vec::new();
        assert(notice_models(none@) =~= seq![]);
        none
    }
}

/// Sets both theme values to the given theme, or neither, and returns the notices that are to be
/// sent then: those of a change exactly where this succeeds.
pub fn change_windows_theme<R: ThemeRegistry>(registry: &mut R, dark_mode: bool) -> (r: (
    Result<(), R::Error>,
    Vec<ThemeNotice>,
))
    ensures
        sets_theme(old(registry).calls(), final(registry).calls(), dark_mode, r.0),
        notice_models(r.1@) == announced(r.0 is Ok),
{
    let result = set_windows_dark_mode(registry, dark_mode);
    let notices = notices_after(result.is_ok());
    (result, notices)
}

/// What setting a theme comes to, where nobody else changes the values meanwhile. Where it
/// succeeds, both themes are the given one, a toggle leads to the other, and the change is
/// announced; where it fails, nothing is announced, and all values are as they were unless
/// restoring the first one failed too.
pub proof fn theme_is_set_and_announced_or_neither<E>(
    values: Map<Seq<char>, u32>,
    dark_mode: bool,
    calls: Seq<RegistryCall<E>>,
    outcome: Result<(), ThemeUpdateError<E>>,
)
    requires
        update_calls(light_theme_value(dark_mode), calls, outcome),
        reads_are_faithful(values, calls),
    ensures
        ({
            let result = flattened(outcome);
            let later = values_after(values, calls);
            &&& announced(result is Ok) == change_notices() <==> result is Ok
            &&& announced(result is Ok).len() == 0 <==> result is Err
            &&& result is Ok ==> {
                &&& later.dom().contains(system_value())
                &&& later.dom().contains(apps_value())
                &&& later[system_value()] == light_theme_value(dark_mode)
                &&& later[apps_value()] == light_theme_value(dark_mode)
                &&& themes(later).system_dark_mode == dark_mode
                &&& next_dark_mode(themes(later)) == !dark_mode
            }
            &&& result is Err && !(outcome matches Err(ThemeUpdateError::Rollback(_))) ==> later
                == values
        }),
{
    assert(change_notices().len() > 0);
    update_changes_both_values_or_none(values, light_theme_value(dark_mode), calls, outcome);
    set_theme_is_read_back(values, dark_mode);
}

} // verus!

//! The theme: what its values mean, how they are changed, and what the helper process does.
use vstd::prelude::*;

use crate::theme_worker::{
    exit_code, helper_mode, helper_runs, helper_step_is, toggle_result_is, HelperPoll, HelperStep,
};
use crate::windows_integration::theme::{
    announced, apps_value, change_notices, flattened, is_dark, light_theme_value, next_dark_mode,
    read_value, readable, restoring_call, sets_theme, system_value, theme_state,
    unreadable_status, update_calls, NoticeModel, RegistryCall, RegistryReading, ThemeUpdateError,
    WindowsIntegrationError, WindowsThemeState,
};

verus! {

/// Zero means the dark theme; every other value, and none, the light one. A theme is set by the
/// value that means it.
pub proof fn meaning_of_theme_values(value: u32, dark_mode: bool)
    ensures
        is_dark(Some(value)) <==> value == 0,
        !is_dark(None),
        is_dark(Some(light_theme_value(dark_mode))) == dark_mode,
        dark_mode ==> light_theme_value(dark_mode) == 0,
        !dark_mode ==> light_theme_value(dark_mode) == 1,
        system_value() == "SystemUsesLightTheme"@,
        apps_value() == "AppsUseLightTheme"@,
{
}

/// A value that is not there counts as read; every other status but success does not.
pub proof fn values_that_can_be_read(reading: RegistryReading)
    ensures
        readable(reading) <==> reading.status == 0 || reading.status == 2,
        reading.status == 0 ==> read_value(reading) == Some(reading.value),
        reading.status == 2 ==> read_value(reading) is None,
{
}

/// The themes are those of the two values, each its own, and where one cannot be read, its status
/// is told, that of the applications first.
pub proof fn themes_of_the_two_values(apps: RegistryReading, system: RegistryReading)
    ensures
        theme_state(apps, system).apps_dark_mode <==> apps.status == 0 && apps.value == 0,
        theme_state(apps, system).system_dark_mode <==> system.status == 0 && system.value == 0,
        !readable(apps) ==> unreadable_status(apps, system) == apps.status,
        readable(apps) ==> unreadable_status(apps, system) == system.status,
{
}

/// A toggle leads to the other theme where both are the same, and to that of the system where they
/// differ.
pub proof fn theme_that_a_toggle_leads_to(state: WindowsThemeState)
    ensures
        state.apps_dark_mode == state.system_dark_mode ==> next_dark_mode(state)
            != state.system_dark_mode,
        state.apps_dark_mode != state.system_dark_mode ==> next_dark_mode(state)
            == state.system_dark_mode,
{
}

/// Whether a call failed.
pub open spec fn failed<E>(call: RegistryCall<E>) -> bool {
    match call {
        RegistryCall::Read { found, .. } => found is Err,
        RegistryCall::Write { reply, .. } => reply is Err,
        RegistryCall::Delete { reply, .. } => reply is Err,
    }
}

/// The error of a call that failed.
pub open spec fn error_of<E>(call: RegistryCall<E>) -> E {
    match call {
        RegistryCall::Read { found, .. } => found->Err_0,
        RegistryCall::Write { reply, .. } => reply->Err_0,
        RegistryCall::Delete { reply, .. } => reply->Err_0,
    }
}

/// The calls of an update. Nothing is changed before both values were read. The values are set in
/// the order system, applications, each to the new value. The update succeeds exactly where none
/// of its calls failed, and then it makes four. It ends at a failure: at the first, or, where that
/// is the last of the four, after the one call that puts the system's value back; then its error
/// is that of the failure, or that of putting back where this failed too.
pub proof fn calls_of_an_update<E>(
    value: u32,
    calls: Seq<RegistryCall<E>>,
    result: Result<(), ThemeUpdateError<E>>,
)
    requires
        update_calls(value, calls, result),
    ensures
        1 <= calls.len() <= 5,
        calls[0] matches RegistryCall::Read { name, .. } && name == "SystemUsesLightTheme"@,
        calls.len() >= 2 ==> !failed(calls[0]) && (calls[1] matches RegistryCall::Read { name, .. }
            && name == "AppsUseLightTheme"@),
        calls.len() >= 3 ==> !failed(calls[1]) && (calls[2] matches RegistryCall::Write {
            name,
            value: new,
            ..
        } && name == "SystemUsesLightTheme"@ && new == value),
        calls.len() >= 4 ==> !failed(calls[2]) && (calls[3] matches RegistryCall::Write {
            name,
            value: new,
            ..
        } && name == "AppsUseLightTheme"@ && new == value),
        calls.len() == 5 <==> calls.len() >= 4 && failed(calls[3]),
        result is Ok <==> calls.len() == 4,
        calls.len() <= 3 ==> failed(calls.last()) && result == Err::<(), ThemeUpdateError<E>>(
            ThemeUpdateError::Update(error_of(calls.last())),
        ),
        calls.len() == 5 ==> {
            let previous = match calls[0] {
                RegistryCall::Read { found, .. } => found->Ok_0,
                _ => None,
            };
            &&& previous matches Some(was) ==> (calls[4] matches RegistryCall::Write {
                name,
                value: put_back,
                ..
            } && name == "SystemUsesLightTheme"@ && put_back == was)
            &&& previous is None ==> (calls[4] matches RegistryCall::Delete { name, .. } && name
                == "SystemUsesLightTheme"@)
            &&& result == Err::<(), ThemeUpdateError<E>>(
                if failed(calls[4]) {
                    ThemeUpdateError::Rollback(error_of(calls[4]))
                } else {
                    ThemeUpdateError::Update(error_of(calls[3]))
                },
            )
        },
{
}

/// A value is put back as it was, or removed where there was none.
pub proof fn values_are_put_back<E>(name: Seq<char>, value: u32, reply: Result<(), E>)
    ensures
        restoring_call(name, Some(value), reply) == (RegistryCall::Write { name, value, reply }),
        restoring_call(name, None, reply) == (RegistryCall::Delete { name, reply }),
{
}

/// Setting a theme is an update of both values to the one that means the theme, made behind the
/// calls that were made before; its error is that of the update, of whichever kind.
pub proof fn setting_a_theme_is_an_update<E>(
    before: Seq<RegistryCall<E>>,
    after: Seq<RegistryCall<E>>,
    dark_mode: bool,
    result: Result<(), E>,
)
    requires
        sets_theme(before, after, dark_mode, result),
    ensures
        before.len() < after.len() <= before.len() + 5,
        forall|i: int| 0 <= i < before.len() ==> #[trigger] after[i] == before[i],
        result is Ok <==> after.len() == before.len() + 4,
        exists|outcome: Result<(), ThemeUpdateError<E>>|
            #[trigger] update_calls(
                light_theme_value(dark_mode),
                after.skip(before.len() as int),
                outcome,
            ) && (result is Ok <==> outcome is Ok) && (outcome matches Err(
                ThemeUpdateError::Update(error),
            ) ==> result == Err::<(), E>(error)) && (outcome matches Err(
                ThemeUpdateError::Rollback(error),
            ) ==> result == Err::<(), E>(error)),
{
    let outcome = choose|outcome: Result<(), ThemeUpdateError<E>>|
        #[trigger] update_calls(
            light_theme_value(dark_mode),
            after.skip(before.len() as int),
            outcome,
        ) && result == flattened(outcome);
    calls_of_an_update(light_theme_value(dark_mode), after.skip(before.len() as int), outcome);
    assert forall|i: int| 0 <= i < before.len() implies #[trigger] after[i] == before[i] by {
        assert(after.take(before.len() as int)[i] == after[i]);
    }
}

/// The notices of a change: the parameters, the five settings and any setting, the three messages,
/// both kinds of taskbar, and the parameters again.
pub proof fn notices_of_a_change()
    ensures
        announced(true) == seq![
            NoticeModel::Parameters,
            NoticeModel::Setting(Some("ImmersiveColorSet"@)),
            NoticeModel::Setting(Some("WindowsThemeElement"@)),
            NoticeModel::Setting(Some("SystemUsesLightTheme"@)),
            NoticeModel::Setting(Some("AppsUseLightTheme"@)),
            NoticeModel::Setting(Some("Policy"@)),
            NoticeModel::Setting(None),
            NoticeModel::Message(0x031a),
            NoticeModel::Message(0x0015),
            NoticeModel::Message(0x0320),
            NoticeModel::Taskbars("Shell_TrayWnd"@),
            NoticeModel::Taskbars("Shell_SecondaryTrayWnd"@),
            NoticeModel::Parameters,
        ],
        change_notices() == announced(true),
        announced(false).len() == 0,
{
    assert(announced(true) =~= seq![
        NoticeModel::Parameters,
        NoticeModel::Setting(Some("ImmersiveColorSet"@)),
        NoticeModel::Setting(Some("WindowsThemeElement"@)),
        NoticeModel::Setting(Some("SystemUsesLightTheme"@)),
        NoticeModel::Setting(Some("AppsUseLightTheme"@)),
        NoticeModel::Setting(Some("Policy"@)),
        NoticeModel::Setting(None),
        NoticeModel::Message(0x031a),
        NoticeModel::Message(0x0015),
        NoticeModel::Message(0x0320),
        NoticeModel::Taskbars("Shell_TrayWnd"@),
        NoticeModel::Taskbars("Shell_SecondaryTrayWnd"@),
        NoticeModel::Parameters,
    ]);
}

/// The arguments are for the helper exactly where the first one is its own, and name a theme exactly
/// where one more follows that is `dark` or `light`.
pub proof fn arguments_of_the_helper(arguments: Seq<String>)
    ensures
        helper_mode(arguments) is None <==> arguments.len() == 0 || arguments[0]@
            != "--mmb-theme-helper"@,
        helper_mode(arguments) == Some(Ok::<bool, ()>(true)) <==> arguments.len() == 2
            && arguments[0]@ == "--mmb-theme-helper"@ && arguments[1]@ == "dark"@,
        helper_mode(arguments) == Some(Ok::<bool, ()>(false)) <==> arguments.len() == 2
            && arguments[0]@ == "--mmb-theme-helper"@ && arguments[1]@ == "light"@,
{
    reveal_strlit("dark");
    reveal_strlit("light");
    assert("dark"@.len() != "light"@.len());
}

/// The exit code of the helper: none where it was not asked for, two where it was not told what to
/// do, and else zero where all four calls went through and one where any failed. Only in the last
/// two cases does it touch the registry.
pub proof fn exit_code_of_the_helper<E>(
    arguments: Seq<String>,
    before: Seq<RegistryCall<E>>,
    after: Seq<RegistryCall<E>>,
    code: Option<i32>,
)
    requires
        helper_runs(arguments, before, after, code),
    ensures
        helper_mode(arguments) is None <==> code is None,
        helper_mode(arguments) == Some(Err::<bool, ()>(())) <==> code == Some(2i32),
        code is None || code == Some(2i32) ==> after == before,
        helper_mode(arguments) matches Some(Ok(_)) ==> {
            &&& code == Some(0i32) || code == Some(1i32)
            &&& code == Some(0i32) <==> after.len() == before.len() + 4
            &&& before.len() < after.len()
        },
{
    match helper_mode(arguments) {
        Some(Ok(dark_mode)) => {
            let result = choose|result: Result<(), E>| #[trigger]
                sets_theme(before, after, dark_mode, result) && code == Some(exit_code(result));
            setting_a_theme_is_an_update(before, after, dark_mode, result);
        },
        _ => {},
    }
}

/// The helper is waited for while it runs and ten seconds have not passed. It succeeds where it
/// exits with success, and is ended where its time is up or it cannot be looked at.
pub proof fn helper_is_waited_for(poll: HelperPoll, elapsed_ms: u64, step: HelperStep)
    requires
        helper_step_is(poll, elapsed_ms, step),
    ensures
        step is Wait <==> poll is Running && elapsed_ms < 10_000,
        step is Succeeded <==> (poll matches HelperPoll::Exited { success, .. } && success),
        step is Failed <==> (poll matches HelperPoll::Exited { success, .. } && !success),
        step is Kill <==> poll is Failed || poll is Running && elapsed_ms >= 10_000,
        step matches HelperStep::Failed(text) ==> text@ == "theme helper exited with status "@
            + poll->status@,
        poll is Running && step is Kill ==> step->Kill_0@ == "theme helper timed out"@,
        poll matches HelperPoll::Failed(error) ==> step->Kill_0@
            == "failed to wait for the theme helper: "@ + error@,
{
}

/// A toggle succeeds exactly where all of its steps do, and tells the theme that is read at its
/// end; else it tells the error of the first step that failed.
pub proof fn result_of_a_toggle(
    next: Result<bool, WindowsIntegrationError>,
    helper: Result<(), String>,
    current: Result<bool, WindowsIntegrationError>,
    result: Result<bool, String>,
)
    requires
        toggle_result_is(next, helper, current, result),
    ensures
        result is Ok <==> next is Ok && helper is Ok && current is Ok,
        result matches Ok(dark_mode) ==> current == Ok::<bool, WindowsIntegrationError>(dark_mode),
        next matches Err(error) ==> result->Err_0@ == error.text(),
        next is Ok && helper is Err ==> result->Err_0@ == helper->Err_0@,
        next is Ok && helper is Ok && current is Err ==> result->Err_0@ == current->Err_0.text(),
{
}

/// The message of a call that failed names the call and its code.
pub proof fn message_of_a_failed_call(error: WindowsIntegrationError)
    ensures
        error.text() == error.context@ + " (win32 error "@ + crate::text::decimal(
            error.code as nat,
        ) + ")"@,
        error.says(error.context@, error.code),
{
}

} // verus!

//! Changing the theme of Windows in a helper process, and watching it.
use vstd::prelude::*;

use crate::text::concat;
use crate::windows_integration::theme::{
    announced, change_windows_theme, notice_models, notices_after, sets_theme, RegistryCall,
    ThemeNotice, ThemeRegistry, WindowsIntegrationError,
};

verus! {

/// The argument that makes the program the theme helper.
pub const THEME_HELPER_ARGUMENT: &'static str = "--mmb-theme-helper";

/// How long the helper may take, in milliseconds.
pub const THEME_HELPER_TIMEOUT_MS: u64 = 10_000;

/// How long to wait before the helper is looked at again, in milliseconds.
pub const THEME_HELPER_POLL_INTERVAL_MS: u64 = 25;

/// What the theme worker tells.
#[derive(Debug)]
pub enum ThemeEvent {
    /// The theme has changed.
    Changed(Result<bool, String>),
    /// A toggle that was asked for has ended.
    Toggled(Result<bool, String>),
}

/// What the arguments ask of the helper: nothing where they are not for it, and nothing that
/// makes sense unless they name exactly one theme.
pub open spec fn helper_mode(arguments: Seq<String>) -> Option<Result<bool, ()>> {
    if arguments.len() == 0 || arguments[0]@ != "--mmb-theme-helper"@ {
        None
    } else if arguments.len() == 2 && arguments[1]@ == "dark"@ {
        Some(Ok(true))
    } else if arguments.len() == 2 && arguments[1]@ == "light"@ {
        Some(Ok(false))
    } else {
        Some(Err(()))
    }
}

/// What the arguments ask of the helper.
pub fn parse_theme_helper_arguments(arguments: &[String]) -> (r: Option<Result<bool, ()>>)
    ensures
        r == helper_mode(arguments@),
{
    if arguments.len() == 0 || arguments[0] != THEME_HELPER_ARGUMENT.to_owned() {
        return None;
    }
    if arguments.len() == 2 {
        if arguments[1] == "dark".to_owned() {
            return Some(Ok(true));
        }
        if arguments[1] == "light".to_owned() {
            return Some(Ok(false));
        }
    }
    Some(Err(()))
}

/// The arguments that make the helper set a theme.
pub fn theme_helper_arguments(dark_mode: bool) -> (r: Vec<String>)
    ensures
        helper_mode(r@) == Some(Ok::<bool, ()>(dark_mode)),
        r@.len() == 2,
{
    proof {
        reveal_strlit("dark");
        reveal_strlit("light");
        assert("dark"@.len() != "light"@.len());
    }
    let mut arguments: Vec<String> = Vec::new();
    arguments.push(THEME_HELPER_ARGUMENT.to_owned());
    arguments.push(
        if dark_mode {
            "dark".to_owned()
        } else {
            "light".to_owned()
        },
    );
    arguments
}

/// The exit code of the helper: zero where the theme was set, one where it could not be.
pub open spec fn exit_code<E>(result: Result<(), E>) -> i32 {
    if result is Ok {
        0
    } else {
        1
    }
}

/// Whether the calls that were added, and the exit code, are those of the helper: the theme is
/// set where the arguments ask for it, and the code is two where they make no sense. There is no
/// code where the arguments are not for the helper.
pub open spec fn helper_runs<E>(
    arguments: Seq<String>,
    before: Seq<RegistryCall<E>>,
    after: Seq<RegistryCall<E>>,
    code: Option<i32>,
) -> bool {
    match helper_mode(arguments) {
        None => code is None && after == before,
        Some(Err(())) => code == Some(2i32) && after == before,
        Some(Ok(dark_mode)) => exists|result: Result<(), E>| #[trigger]
            sets_theme(before, after, dark_mode, result) && code == Some(exit_code(result)),
    }
}

/// Sets the theme where the arguments ask for it, and returns the exit code of the helper, and
/// the notices that are to be sent: those of a change exactly where the theme was set.
pub fn run_requested_theme_helper<R: ThemeRegistry>(arguments: &[String], registry: &mut R) -> (r: (
    Option<i32>,
    Vec<ThemeNotice>,
))
    ensures
        helper_runs(arguments@, old(registry).calls(), final(registry).calls(), r.0),
        notice_models(r.1@) == announced(r.0 == Some(0i32)),
{
    match parse_theme_helper_arguments(arguments) {
        None => (None, notices_after(false)),
        Some(Err(())) => (Some(2), notices_after(false)),
        Some(Ok(dark_mode)) => {
            let (result, notices) = change_windows_theme(registry, dark_mode);
            let code: i32 = match result {
                Ok(()) => 0,
                Err(_) => 1,
            };
            (Some(code), notices)
        },
    }
}

/// Sets the theme where the arguments ask for it, and returns the exit code of the helper. The
/// change is to be announced, as `run_requested_theme_helper` says.
pub fn run_theme_helper_if_requested<R: ThemeRegistry>(
    arguments: &[String],
    registry: &mut R,
) -> (r: Option<i32>)
    ensures
        helper_runs(arguments@, old(registry).calls(), final(registry).calls(), r),
{
    run_requested_theme_helper(arguments, registry).0
}

/// What looking at the helper process gave.
pub enum HelperPoll {
    /// The helper has exited; the status says how.
    Exited { success: bool, status: String },
    /// The helper runs on.
    Running,
    /// The helper could not be looked at.
    Failed(String),
}

/// What to do after the helper was looked at.
#[derive(Debug)]
pub enum HelperStep {
    /// Wait, and look again.
    Wait,
    /// The helper has done its work.
    Succeeded,
    /// The helper has failed.
    Failed(String),
    /// End the helper, which has failed.
    Kill(String),
}

/// What to do after the helper was looked at.
pub open spec fn helper_step_is(poll: HelperPoll, elapsed_ms: u64, step: HelperStep) -> bool {
    match poll {
        HelperPoll::Exited { success, status } => if success {
            step is Succeeded
        } else {
            step matches HelperStep::Failed(text) && text@ == "theme helper exited with status "@
                + status@
        },
        HelperPoll::Running => if elapsed_ms < THEME_HELPER_TIMEOUT_MS {
            step is Wait
        } else {
            step matches HelperStep::Kill(text) && text@ == "theme helper timed out"@
        },
        HelperPoll::Failed(error) => step matches HelperStep::Kill(text) && text@
            == "failed to wait for the theme helper: "@ + error@,
    }
}

/// What to do after the helper was looked at, so many milliseconds after it was started.
pub fn helper_step(poll: &HelperPoll, elapsed_ms: u64) -> (r: HelperStep)
    ensures
        helper_step_is(*poll, elapsed_ms, r),
{
    match poll {
        HelperPoll::Exited { success, status } => {
            if *success {
                HelperStep::Succeeded
            } else {
                HelperStep::Failed(concat("theme helper exited with status ", status.as_str()))
            }
        },
        HelperPoll::Running => {
            if elapsed_ms < THEME_HELPER_TIMEOUT_MS {
                HelperStep::Wait
            } else {
                HelperStep::Kill("theme helper timed out".to_owned())
            }
        },
        HelperPoll::Failed(error) => HelperStep::Kill(
            concat("failed to wait for the theme helper: ", error.as_str()),
        ),
    }
}

/// The message about a helper whose executable could not be found.
pub fn helper_not_located(error: &str) -> (r: String)
    ensures
        r@ == "failed to locate the theme helper executable: "@ + error@,
{
    concat("failed to locate the theme helper executable: ", error)
}

/// The message about a helper that could not be started.
pub fn helper_not_started(error: &str) -> (r: String)
    ensures
        r@ == "failed to start the theme helper: "@ + error@,
{
    concat("failed to start the theme helper: ", error)
}

/// What came of a toggle: the first error, or the theme that is read afterwards.
pub open spec fn toggle_result_is(
    next: Result<bool, WindowsIntegrationError>,
    helper: Result<(), String>,
    current: Result<bool, WindowsIntegrationError>,
    result: Result<bool, String>,
) -> bool {
    match (next, helper, current) {
        (Err(error), _, _) => result matches Err(text) && text@ == error.text(),
        (Ok(_), Err(message), _) => result matches Err(text) && text@ == message@,
        (Ok(_), Ok(()), Err(error)) => result matches Err(text) && text@ == error.text(),
        (Ok(_), Ok(()), Ok(dark_mode)) => result == Ok::<bool, String>(dark_mode),
    }
}

/// The event that ends a toggle. The steps are the choice of the theme, the run of the helper
/// and the reading of the theme; what follows a step that failed is not looked at.
pub fn toggled(
    next: Result<bool, WindowsIntegrationError>,
    helper: Result<(), String>,
    current: Result<bool, WindowsIntegrationError>,
) -> (r: ThemeEvent)
    ensures
        r matches ThemeEvent::Toggled(result) && toggle_result_is(next, helper, current, result),
{
    ThemeEvent::Toggled(
        match next {
            Err(error) => Err(error.to_string()),
            Ok(_) => match helper {
                Err(message) => Err(message),
                Ok(()) => match current {
                    Err(error) => Err(error.to_string()),
                    Ok(dark_mode) => Ok(dark_mode),
                },
            },
        },
    )
}

/// The event of a watcher that could not be set up.
pub fn watcher_failed(error: WindowsIntegrationError) -> (r: ThemeEvent)
    ensures
        r matches ThemeEvent::Changed(Err(text)) && text@ == error.text(),
{
    ThemeEvent::Changed(Err(error.to_string()))
}

/// The event of a watcher after it waited for a change and read the theme, and whether the
/// watcher stops. It stops at the first error. Where the waiting failed, what stands for the
/// theme is not looked at.
pub fn watched(
    change: Result<(), WindowsIntegrationError>,
    current: Result<bool, WindowsIntegrationError>,
) -> (r: (ThemeEvent, bool))
    ensures
        r.0 matches ThemeEvent::Changed(result) && match (change, current) {
            (Err(error), _) => result matches Err(text) && text@ == error.text(),
            (Ok(()), Err(error)) => result matches Err(text) && text@ == error.text(),
            (Ok(()), Ok(dark_mode)) => result == Ok::<bool, String>(dark_mode),
        },
        r.1 == (change is Err || current is Err),
{
    match change {
        Err(error) => (ThemeEvent::Changed(Err(error.to_string())), true),
        Ok(()) => match current {
            Err(error) => (ThemeEvent::Changed(Err(error.to_string())), true),
            Ok(dark_mode) => (ThemeEvent::Changed(Ok(dark_mode)), false),
        },
    }
}

} // verus!

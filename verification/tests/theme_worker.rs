use mmb::theme_worker::{
    helper_not_located, helper_not_started, helper_step, parse_theme_helper_arguments,
    run_requested_theme_helper, run_theme_helper_if_requested, theme_helper_arguments, toggled,
    watched, watcher_failed,
    HelperPoll, HelperStep, ThemeEvent, THEME_HELPER_TIMEOUT_MS,
};
use mmb::windows_integration::theme::{
    broadcast_theme_change, ThemeRegistry, WindowsIntegrationError,
};

fn arguments(values: &[&str]) -> Vec<String> {
    values.iter().map(|value| (*value).into()).collect()
}

#[test]
fn theme_helper_arguments_are_strictly_scoped() {
    assert_eq!(parse_theme_helper_arguments(&arguments(&[])), None);
    assert_eq!(
        parse_theme_helper_arguments(&arguments(&["--unrelated"])),
        None
    );
    assert_eq!(
        parse_theme_helper_arguments(&arguments(&["--mmb-theme-helper", "dark"])),
        Some(Ok(true))
    );
    assert_eq!(
        parse_theme_helper_arguments(&arguments(&["--mmb-theme-helper", "light"])),
        Some(Ok(false))
    );
    assert_eq!(
        parse_theme_helper_arguments(&arguments(&["--mmb-theme-helper"])),
        Some(Err(()))
    );
}

#[test]
fn more_or_other_helper_arguments_make_no_sense() {
    assert_eq!(
        parse_theme_helper_arguments(&arguments(&["--mmb-theme-helper", "Dark"])),
        Some(Err(()))
    );
    assert_eq!(
        parse_theme_helper_arguments(&arguments(&["--mmb-theme-helper", "dark", "light"])),
        Some(Err(()))
    );
    assert_eq!(
        parse_theme_helper_arguments(&arguments(&["dark", "--mmb-theme-helper"])),
        None
    );
}

#[test]
fn the_helper_understands_the_arguments_that_it_is_started_with() {
    for dark_mode in [false, true] {
        let arguments = theme_helper_arguments(dark_mode);
        assert_eq!(
            parse_theme_helper_arguments(&arguments),
            Some(Ok(dark_mode))
        );
    }
    assert_eq!(theme_helper_arguments(true), ["--mmb-theme-helper", "dark"]);
}

struct CountingRegistry {
    calls: u32,
    fails: bool,
    written: Vec<u32>,
}

impl ThemeRegistry for CountingRegistry {
    type Error = ();

    fn read(&mut self, _name: &'static str) -> Result<Option<u32>, ()> {
        self.calls += 1;
        Ok(None)
    }

    fn write(&mut self, _name: &'static str, value: u32) -> Result<(), ()> {
        self.calls += 1;
        self.written.push(value);
        if self.fails { Err(()) } else { Ok(()) }
    }

    fn delete(&mut self, _name: &'static str) -> Result<(), ()> {
        self.calls += 1;
        Ok(())
    }
}

fn run(values: &[&str], fails: bool) -> (Option<i32>, CountingRegistry) {
    let mut registry = CountingRegistry {
        calls: 0,
        fails,
        written: Vec::new(),
    };
    let code = run_theme_helper_if_requested(&arguments(values), &mut registry);
    (code, registry)
}

#[test]
fn the_exit_code_of_the_helper_tells_what_happened() {
    let (code, registry) = run(&["--mmb-theme-helper", "dark"], false);
    assert_eq!(code, Some(0));
    assert_eq!(registry.written, [0, 0]);
    let (code, registry) = run(&["--mmb-theme-helper", "light"], false);
    assert_eq!(code, Some(0));
    assert_eq!(registry.written, [1, 1]);
    let (code, registry) = run(&["--mmb-theme-helper", "light"], true);
    assert_eq!(code, Some(1));
    assert_eq!(registry.calls, 3);
    let (code, registry) = run(&["--mmb-theme-helper", "purple"], false);
    assert_eq!(code, Some(2));
    assert_eq!(registry.calls, 0);
    let (code, registry) = run(&[], false);
    assert_eq!(code, None);
    assert_eq!(registry.calls, 0);
}

#[test]
fn the_helper_is_waited_for_until_its_time_is_up() {
    assert!(matches!(
        helper_step(&HelperPoll::Running, THEME_HELPER_TIMEOUT_MS - 1),
        HelperStep::Wait
    ));
    assert!(matches!(
        helper_step(&HelperPoll::Running, THEME_HELPER_TIMEOUT_MS),
        HelperStep::Kill(message) if message == "theme helper timed out"
    ));
    let exited = |success: bool| HelperPoll::Exited {
        success,
        status: "exit code: 1".into(),
    };
    assert!(matches!(
        helper_step(&exited(true), THEME_HELPER_TIMEOUT_MS + 1),
        HelperStep::Succeeded
    ));
    assert!(matches!(
        helper_step(&exited(false), 0),
        HelperStep::Failed(message) if message == "theme helper exited with status exit code: 1"
    ));
    assert!(matches!(
        helper_step(&HelperPoll::Failed("gone".into()), 0),
        HelperStep::Kill(message) if message == "failed to wait for the theme helper: gone"
    ));
    assert_eq!(
        helper_not_located("x"),
        "failed to locate the theme helper executable: x"
    );
    assert_eq!(helper_not_started("x"), "failed to start the theme helper: x");
}

const ERROR: WindowsIntegrationError = WindowsIntegrationError {
    context: "RegGetValueW failed",
    code: 5,
};

#[test]
fn a_toggle_ends_with_the_first_error_or_the_theme() {
    let text = "RegGetValueW failed (win32 error 5)";
    assert!(matches!(
        toggled(Err(ERROR), Ok(()), Ok(true)),
        ThemeEvent::Toggled(Err(message)) if message == text
    ));
    assert!(matches!(
        toggled(Ok(true), Err("helper".into()), Err(ERROR)),
        ThemeEvent::Toggled(Err(message)) if message == "helper"
    ));
    assert!(matches!(
        toggled(Ok(true), Ok(()), Err(ERROR)),
        ThemeEvent::Toggled(Err(message)) if message == text
    ));
    assert!(matches!(
        toggled(Ok(true), Ok(()), Ok(false)),
        ThemeEvent::Toggled(Ok(false))
    ));
}

#[test]
fn a_watcher_stops_at_the_first_error() {
    let text = "RegGetValueW failed (win32 error 5)";
    assert!(matches!(
        watched(Ok(()), Ok(true)),
        (ThemeEvent::Changed(Ok(true)), false)
    ));
    assert!(matches!(
        watched(Err(ERROR), Ok(true)),
        (ThemeEvent::Changed(Err(message)), true) if message == text
    ));
    assert!(matches!(
        watched(Ok(()), Err(ERROR)),
        (ThemeEvent::Changed(Err(message)), true) if message == text
    ));
    assert!(matches!(
        watcher_failed(ERROR),
        ThemeEvent::Changed(Err(message)) if message == text
    ));
}

#[test]
fn the_helper_announces_a_theme_that_it_has_set() {
    let announced = |values: &[&str], fails: bool| {
        let mut registry = CountingRegistry {
            calls: 0,
            fails,
            written: Vec::new(),
        };
        run_requested_theme_helper(&arguments(values), &mut registry)
    };
    let (code, notices) = announced(&["--mmb-theme-helper", "dark"], false);
    assert_eq!(code, Some(0));
    assert_eq!(notices, broadcast_theme_change());
    for (values, fails, code) in [
        (vec!["--mmb-theme-helper", "dark"], true, Some(1)),
        (vec!["--mmb-theme-helper"], false, Some(2)),
        (vec![], false, None),
    ] {
        let (actual, notices) = announced(&values, fails);
        assert_eq!(actual, code);
        assert!(notices.is_empty());
    }
}

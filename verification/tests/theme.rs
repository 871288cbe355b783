use std::collections::HashMap;

use mmb::windows_integration::theme::{
    broadcast_theme_change, change_windows_theme, delete_theme_registry_value,
    load_menu_theme_api, next_windows_dark_mode, notices_after, notify_taskbar_window,
    preferred_app_mode,
    read_theme_registry_value_result, restore_theme_registry_value, set_theme_registry_value,
    set_windows_dark_mode, theme_registry_dark_mode, theme_value_is_dark, update_theme_registry,
    windows_main_dark_mode, windows_theme_state, MenuThemeApi, RegistryReading, ThemeNotice,
    ThemeRegistry, ThemeUpdateError, WindowsThemeWatcher, ERROR_FILE_NOT_FOUND, ERROR_SUCCESS,
    WM_THEMECHANGED,
};

#[derive(Default)]
struct FakeRegistry {
    values: HashMap<&'static str, u32>,
    fail_write: Option<&'static str>,
}

impl ThemeRegistry for FakeRegistry {
    type Error = &'static str;

    fn read(&mut self, name: &'static str) -> Result<Option<u32>, Self::Error> {
        Ok(self.values.get(name).copied())
    }

    fn write(&mut self, name: &'static str, value: u32) -> Result<(), Self::Error> {
        if self.fail_write == Some(name) {
            self.fail_write = None;
            return Err("write failed");
        }
        self.values.insert(name, value);
        Ok(())
    }

    fn delete(&mut self, name: &'static str) -> Result<(), Self::Error> {
        self.values.remove(name);
        Ok(())
    }
}

#[test]
fn second_theme_write_failure_restores_the_first_value() {
    let mut registry = FakeRegistry {
        values: HashMap::from([("SystemUsesLightTheme", 1), ("AppsUseLightTheme", 1)]),
        fail_write: Some("AppsUseLightTheme"),
    };

    assert!(update_theme_registry(&mut registry, 0).is_err());
    assert_eq!(registry.values["SystemUsesLightTheme"], 1);
    assert_eq!(registry.values["AppsUseLightTheme"], 1);
}

#[test]
fn rollback_removes_a_value_that_was_originally_missing() {
    let mut registry = FakeRegistry {
        values: HashMap::from([("AppsUseLightTheme", 1)]),
        fail_write: Some("AppsUseLightTheme"),
    };

    assert!(update_theme_registry(&mut registry, 0).is_err());
    assert!(!registry.values.contains_key("SystemUsesLightTheme"));
}

#[test]
fn a_missing_theme_value_uses_the_windows_light_default() {
    assert!(!theme_value_is_dark(None));
    assert!(theme_value_is_dark(Some(0)));
    assert!(!theme_value_is_dark(Some(1)));
}

fn reading(status: u32, value: u32) -> RegistryReading {
    RegistryReading { status, value }
}

#[test]
fn a_theme_update_sets_both_values() {
    let mut registry = FakeRegistry::default();
    assert!(update_theme_registry(&mut registry, 1).is_ok());
    assert_eq!(registry.values["SystemUsesLightTheme"], 1);
    assert_eq!(registry.values["AppsUseLightTheme"], 1);
    assert!(set_windows_dark_mode(&mut registry, true).is_ok());
    assert_eq!(registry.values["SystemUsesLightTheme"], 0);
    assert_eq!(registry.values["AppsUseLightTheme"], 0);
}

#[test]
fn a_first_write_that_fails_changes_nothing() {
    let mut registry = FakeRegistry {
        values: HashMap::from([("SystemUsesLightTheme", 1)]),
        fail_write: Some("SystemUsesLightTheme"),
    };
    assert!(matches!(
        update_theme_registry(&mut registry, 0),
        Err(ThemeUpdateError::Update("write failed"))
    ));
    assert_eq!(registry.values, HashMap::from([("SystemUsesLightTheme", 1)]));
}

struct BrokenRegistry {
    fail_from: u32,
    calls: u32,
}

impl BrokenRegistry {
    fn answer(&mut self) -> Result<(), u32> {
        self.calls += 1;
        if self.calls < self.fail_from {
            Ok(())
        } else {
            Err(self.calls)
        }
    }
}

impl ThemeRegistry for BrokenRegistry {
    type Error = u32;

    fn read(&mut self, _name: &'static str) -> Result<Option<u32>, u32> {
        self.answer().map(|()| Some(7))
    }

    fn write(&mut self, _name: &'static str, _value: u32) -> Result<(), u32> {
        self.answer()
    }

    fn delete(&mut self, _name: &'static str) -> Result<(), u32> {
        self.answer()
    }
}

#[test]
fn the_first_call_that_fails_ends_an_update() {
    for fail_from in 1..=3 {
        let mut registry = BrokenRegistry { fail_from, calls: 0 };
        assert!(matches!(
            update_theme_registry(&mut registry, 0),
            Err(ThemeUpdateError::Update(code)) if code == fail_from
        ));
        assert_eq!(registry.calls, fail_from);
    }
    let mut registry = BrokenRegistry {
        fail_from: 4,
        calls: 0,
    };
    let error = update_theme_registry(&mut registry, 0).unwrap_err();
    assert!(matches!(error, ThemeUpdateError::Rollback(5)));
    assert_eq!(error.into_error(), 5);
    let mut registry = BrokenRegistry {
        fail_from: 4,
        calls: 0,
    };
    assert_eq!(set_windows_dark_mode(&mut registry, false), Err(5));
}

#[test]
fn a_value_is_restored_or_removed() {
    let mut registry = FakeRegistry::default();
    assert!(restore_theme_registry_value(&mut registry, "Name", Some(3)).is_ok());
    assert_eq!(registry.values["Name"], 3);
    assert!(restore_theme_registry_value(&mut registry, "Name", None).is_ok());
    assert!(registry.values.is_empty());
}

#[test]
fn the_themes_are_read_from_both_values() {
    let light = reading(ERROR_SUCCESS, 1);
    let dark = reading(ERROR_SUCCESS, 0);
    let missing = reading(ERROR_FILE_NOT_FOUND, 0);
    let denied = reading(5, 0);
    assert_eq!(windows_main_dark_mode(light, dark).ok(), Some(true));
    assert_eq!(windows_main_dark_mode(dark, missing).ok(), Some(false));
    assert_eq!(next_windows_dark_mode(light, light).ok(), Some(true));
    assert_eq!(next_windows_dark_mode(dark, dark).ok(), Some(false));
    assert_eq!(next_windows_dark_mode(light, dark).ok(), Some(true));
    assert_eq!(next_windows_dark_mode(dark, light).ok(), Some(false));
    assert_eq!(
        windows_main_dark_mode(denied, reading(6, 0)).unwrap_err().to_string(),
        "RegGetValueW failed (win32 error 5)"
    );
    assert_eq!(
        next_windows_dark_mode(light, reading(6, 0)).unwrap_err().to_string(),
        "RegGetValueW failed (win32 error 6)"
    );
    assert_eq!(theme_registry_dark_mode(missing).ok(), Some(false));
    assert_eq!(read_theme_registry_value_result(missing).ok(), Some(None));
    assert_eq!(read_theme_registry_value_result(light).ok(), Some(Some(1)));
    let state = windows_theme_state(light, dark).unwrap();
    assert!(!state.apps_dark_mode && state.system_dark_mode);
}

#[test]
fn toggling_twice_restores_the_theme() {
    for dark_mode in [false, true] {
        let mut registry = FakeRegistry::default();
        set_windows_dark_mode(&mut registry, dark_mode).unwrap();
        for _ in 0..2 {
            let apps = reading(ERROR_SUCCESS, registry.values["AppsUseLightTheme"]);
            let system = reading(ERROR_SUCCESS, registry.values["SystemUsesLightTheme"]);
            let next = next_windows_dark_mode(apps, system).unwrap();
            set_windows_dark_mode(&mut registry, next).unwrap();
        }
        let apps = reading(ERROR_SUCCESS, registry.values["AppsUseLightTheme"]);
        let system = reading(ERROR_SUCCESS, registry.values["SystemUsesLightTheme"]);
        assert_eq!(windows_main_dark_mode(apps, system).ok(), Some(dark_mode));
    }
}

#[test]
fn statuses_of_registry_calls_become_results() {
    assert!(set_theme_registry_value(ERROR_SUCCESS).is_ok());
    assert_eq!(
        set_theme_registry_value(ERROR_FILE_NOT_FOUND).unwrap_err().to_string(),
        "RegSetKeyValueW failed (win32 error 2)"
    );
    assert!(delete_theme_registry_value(ERROR_SUCCESS).is_ok());
    assert!(delete_theme_registry_value(ERROR_FILE_NOT_FOUND).is_ok());
    assert_eq!(
        delete_theme_registry_value(5).unwrap_err().to_string(),
        "RegDeleteKeyValueW failed (win32 error 5)"
    );
    assert_eq!(
        WindowsThemeWatcher::new(5, 0).unwrap_err().to_string(),
        "RegOpenKeyExW theme watcher failed (win32 error 5)"
    );
    let watcher = WindowsThemeWatcher::new(0, 17).unwrap();
    assert_eq!(watcher.key(), 17);
    assert!(watcher.wait_for_change(0).is_ok());
    assert_eq!(
        watcher.wait_for_change(6).unwrap_err().to_string(),
        "RegNotifyChangeKeyValue failed (win32 error 6)"
    );
}

#[test]
fn menus_follow_the_theme_where_the_library_lets_them() {
    assert_eq!(preferred_app_mode(true), 2);
    assert_eq!(preferred_app_mode(false), 3);
    assert_eq!(load_menu_theme_api(0, 1, 1), MenuThemeApi::Missing);
    assert_eq!(load_menu_theme_api(1, 0, 1), MenuThemeApi::Release);
    assert_eq!(load_menu_theme_api(1, 1, 0), MenuThemeApi::Release);
    assert_eq!(load_menu_theme_api(1, 1, 1), MenuThemeApi::Ready);
}

#[test]
fn a_change_of_the_theme_is_announced_in_order() {
    let notices = broadcast_theme_change();
    assert_eq!(notices.len(), 13);
    assert_eq!(notices[0], ThemeNotice::Parameters);
    assert_eq!(notices[1], ThemeNotice::Setting(Some("ImmersiveColorSet")));
    assert_eq!(notices[6], ThemeNotice::Setting(None));
    assert_eq!(notices[7], ThemeNotice::Message(WM_THEMECHANGED));
    assert_eq!(notices[10], ThemeNotice::Taskbars("Shell_TrayWnd"));
    assert_eq!(notices[12], ThemeNotice::Parameters);
    let taskbar = notify_taskbar_window();
    assert_eq!(taskbar[..5], notices[1..6]);
    assert_eq!(taskbar[5..], notices[7..10]);
}

#[test]
fn a_change_is_announced_where_it_succeeds() {
    let mut registry = FakeRegistry::default();
    let (result, notices) = change_windows_theme(&mut registry, true);
    assert!(result.is_ok());
    assert_eq!(registry.values["AppsUseLightTheme"], 0);
    assert_eq!(notices, broadcast_theme_change());
    registry.fail_write = Some("AppsUseLightTheme");
    let (result, notices) = change_windows_theme(&mut registry, false);
    assert!(result.is_err());
    assert_eq!(registry.values["SystemUsesLightTheme"], 0);
    assert!(notices.is_empty());
    assert_eq!(notices_after(true), broadcast_theme_change());
    assert!(notices_after(false).is_empty());
}

use lexwisp::settings::{AppSettings, GlobalHotkey, SettingsError, SettingsSnapshot};
use lexwisp::settings_service::{plan_settings_apply, rollback_after, ApplyStep};

#[test]
fn only_changed_platform_settings_are_applied() {
    let previous = SettingsSnapshot::new(AppSettings::default(), 2);
    let unchanged = plan_settings_apply(&previous, AppSettings::default()).expect("valid");
    assert!(unchanged.hotkey.is_none());
    assert!(unchanged.startup.is_none());
    assert_eq!(unchanged.generation, 3);

    let old_hotkey = AppSettings::default().hotkey();
    let new_hotkey = if old_hotkey == GlobalHotkey::AltShiftSpace {
        GlobalHotkey::ControlAltSpace
    } else {
        GlobalHotkey::AltShiftSpace
    };
    let old_startup = AppSettings::default().launch_at_startup();
    let changed = AppSettings::default().with_hotkey(new_hotkey).with_launch_at_startup(!old_startup);
    let plan = plan_settings_apply(&previous, changed).expect("valid");
    assert_eq!(plan.hotkey, Some(new_hotkey));
    assert_eq!(plan.startup, Some(!old_startup));
    assert_eq!(plan.previous_hotkey, old_hotkey);
    assert_eq!(plan.previous_startup, old_startup);
    let next = plan.finish();
    assert_eq!(next.generation(), 3);
    assert_eq!(next.settings().hotkey(), new_hotkey);
}

#[test]
fn invalid_settings_are_refused_before_any_step() {
    let previous = SettingsSnapshot::new(AppSettings::default(), 0);
    let invalid = AppSettings::default().with_popup_retention_seconds(601);
    assert!(matches!(plan_settings_apply(&previous, invalid), Err(SettingsError::Invalid(_))));
}

#[test]
fn the_generation_saturates() {
    let previous = SettingsSnapshot::new(AppSettings::default(), u64::MAX);
    assert_eq!(plan_settings_apply(&previous, AppSettings::default()).expect("valid").generation, u64::MAX);
}

#[test]
fn failures_roll_back_the_steps_already_taken() {
    assert_eq!(rollback_after(ApplyStep::Hotkey), (false, false));
    assert_eq!(rollback_after(ApplyStep::Startup), (true, false));
    assert_eq!(rollback_after(ApplyStep::Save), (true, true));
}

use virtual_desktop_manager::auto_start::{
    can_uninstall, change_install, is_installed, on_settings_changed, should_install,
    InstallChange, TaskQueryError,
};
use virtual_desktop_manager::change_elevation::{
    plan_elevation, same_text, spawn_method, AdminRestart, ElevationPlan, PrivilegeLevel,
    SpawnMethod,
};
use virtual_desktop_manager::decimal::to_decimal;
use virtual_desktop_manager::settings::{
    migrate, missing_hotkey_is_expected, AutoStart, ConfigWindowInfo, QuickSwitchMenu,
    TrayClickAction, TrayIconType, CURRENT_VERSION,
};

#[test]
fn auto_start_offers_no_start_without_admin_rights() {
    assert_eq!(AutoStart::all(), vec![AutoStart::Disabled, AutoStart::Elevated]);
    assert_eq!(AutoStart::default(), AutoStart::Disabled);
    assert_eq!(AutoStart::Disabled.label(), "No");
    assert_eq!(AutoStart::Enabled.label(), "Yes");
    assert_eq!(AutoStart::Elevated.label(), "Yes, with admin rights");
}

#[test]
fn quick_switch_menu_labels() {
    assert_eq!(
        QuickSwitchMenu::all(),
        vec![QuickSwitchMenu::Disabled, QuickSwitchMenu::TopMenu, QuickSwitchMenu::SubMenu]
    );
    assert_eq!(QuickSwitchMenu::default(), QuickSwitchMenu::SubMenu);
    assert_eq!(QuickSwitchMenu::Disabled.label(), "Off");
    assert_eq!(QuickSwitchMenu::TopMenu.label(), "Inside the main context menu");
    assert_eq!(QuickSwitchMenu::SubMenu.label(), "Inside a submenu");
}

#[test]
fn tray_icon_type_labels() {
    assert_eq!(TrayIconType::all().len(), 5);
    assert_eq!(TrayIconType::all()[4], TrayIconType::AppIcon);
    assert_eq!(TrayIconType::default(), TrayIconType::WithBackground);
    assert_eq!(TrayIconType::WithBackground.label(), "Hardcoded number inside icon");
    assert_eq!(TrayIconType::WithBackgroundNoHardcoded.label(), "Generated number inside icon");
    assert_eq!(TrayIconType::NoBackground.label(), "Only black and white number");
    assert_eq!(TrayIconType::NoBackground2.label(), "Only purple number");
    assert_eq!(TrayIconType::AppIcon.label(), "Only program icon, no number");
}

#[test]
fn tray_click_action_labels() {
    assert_eq!(
        TrayClickAction::all(),
        vec![
            TrayClickAction::Disabled,
            TrayClickAction::StopFlashingWindows,
            TrayClickAction::ToggleConfigurationWindow,
            TrayClickAction::ApplyFilters,
            TrayClickAction::OpenContextMenu,
        ]
    );
    assert_eq!(TrayClickAction::default(), TrayClickAction::Disabled);
    assert_eq!(TrayClickAction::Disabled.label(), "Disabled");
    assert_eq!(TrayClickAction::StopFlashingWindows.label(), "Stop Flashing Windows");
    assert_eq!(TrayClickAction::ToggleConfigurationWindow.label(), "Open/Close Config Window");
    assert_eq!(TrayClickAction::ApplyFilters.label(), "Apply Filters");
    assert_eq!(TrayClickAction::OpenContextMenu.label(), "Open Context Menu");
}

#[test]
fn the_configuration_window_starts_unplaced() {
    assert_eq!(
        ConfigWindowInfo::default(),
        ConfigWindowInfo { position: None, size: (800, 600), maximized: false }
    );
}

#[test]
fn settings_are_always_written_in_the_current_version() {
    assert_eq!(CURRENT_VERSION, 2);
    assert_eq!(migrate(0), 2);
    assert_eq!(migrate(1), 2);
    assert_eq!(migrate(7), 2);
}

#[test]
fn old_settings_may_lack_the_mouse_hotkey() {
    assert!(missing_hotkey_is_expected(Some(0), false));
    assert!(missing_hotkey_is_expected(Some(1), false));
    assert!(!missing_hotkey_is_expected(Some(2), false));
    assert!(!missing_hotkey_is_expected(None, false));
    assert!(!missing_hotkey_is_expected(Some(1), true));
}

#[test]
fn numbers_as_decimal_text() {
    assert_eq!(to_decimal(0), "0");
    assert_eq!(to_decimal(7), "7");
    assert_eq!(to_decimal(10), "10");
    assert_eq!(to_decimal(1234567890), "1234567890");
    assert_eq!(to_decimal(u64::MAX), "18446744073709551615");
}

#[test]
fn the_task_query_is_read_by_its_exit_code() {
    assert_eq!(is_installed(Some(0)), Ok(true));
    assert_eq!(is_installed(Some(1)), Ok(false));
    assert_eq!(is_installed(Some(2)), Err(TaskQueryError { exit_code: Some(2) }));
    assert_eq!(is_installed(Some(-1)), Err(TaskQueryError { exit_code: Some(-1) }));
    assert_eq!(is_installed(None), Err(TaskQueryError { exit_code: None }));
}

#[test]
fn the_task_follows_the_setting() {
    assert!(!should_install(AutoStart::Disabled));
    assert!(should_install(AutoStart::Enabled));
    assert!(should_install(AutoStart::Elevated));
    assert_eq!(change_install(true, true), InstallChange::Nothing);
    assert_eq!(change_install(false, false), InstallChange::Nothing);
    assert_eq!(change_install(false, true), InstallChange::Install);
    assert_eq!(change_install(true, false), InstallChange::Uninstall);
    assert!(on_settings_changed(AutoStart::Disabled, AutoStart::Elevated));
    assert!(!on_settings_changed(AutoStart::Elevated, AutoStart::Elevated));
}

#[test]
fn a_task_name_with_a_wildcard_is_not_removed() {
    assert!(can_uninstall("Virtual Desktop Manager - Elevated Auto Start"));
    assert!(can_uninstall(""));
    assert!(!can_uninstall("*"));
    assert!(!can_uninstall("Virtual*"));
}

#[test]
fn elevation_is_planned_from_the_current_rights() {
    let safer = ElevationPlan::RestartWithSaferToken;
    let shell = ElevationPlan::RestartWithShellToken;
    assert_eq!(plan_elevation(true, PrivilegeLevel::NotPrivileged), safer);
    assert_eq!(plan_elevation(true, PrivilegeLevel::Elevated), ElevationPlan::Nothing);
    assert_eq!(plan_elevation(true, PrivilegeLevel::HighIntegrityAdmin), ElevationPlan::Nothing);
    assert_eq!(plan_elevation(false, PrivilegeLevel::NotPrivileged), ElevationPlan::Nothing);
    assert_eq!(plan_elevation(false, PrivilegeLevel::Elevated), shell);
    assert_eq!(plan_elevation(false, PrivilegeLevel::HighIntegrityAdmin), safer);
    assert_eq!(spawn_method(true), SpawnMethod::RunAs);
    assert_eq!(spawn_method(false), SpawnMethod::WithToken);
}

#[test]
fn the_restarted_copy_is_told_the_port_and_confirms() {
    let restart = AdminRestart;
    assert_eq!(restart.get_args(8080), vec!["restarted".to_string(), "8080".to_string()]);
    assert_eq!(restart.get_args(0)[1], "0");
    assert_eq!(restart.get_args(65535)[1], "65535");
    assert_eq!(restart.confirm_message(), "restarted-backup-manager");
    assert!(restart.is_restart(Some("restarted")));
    assert!(!restart.is_restart(Some("restarted ")));
    assert!(!restart.is_restart(Some("switch")));
    assert!(!restart.is_restart(None));
    assert!(restart.confirms("restarted-backup-manager"));
    assert!(!restart.confirms("restarted-backup-managed"));
    assert!(!restart.confirms(""));
}

#[test]
fn texts_are_the_same_only_if_every_character_is() {
    assert!(same_text("", ""));
    assert!(same_text("abc", "abc"));
    assert!(!same_text("abc", "abd"));
    assert!(!same_text("abc", "ab"));
    assert!(same_text("skrivbord \u{e5}", "skrivbord \u{e5}"));
}

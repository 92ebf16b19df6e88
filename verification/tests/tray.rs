use virtual_desktop_manager::dynamic_gui::{ControlHandle, RawEvent};
use virtual_desktop_manager::settings::{QuickSwitchMenu, TrayIconType};
use virtual_desktop_manager::tray::{
    classify_message, get_desktop_name, icon_for_setting, is_repeat, midpoint, names_to_fetch,
    next_startup_rebuild, notify_key_press_in_menu, resize_names, set_desktop_name, tray_action,
    MenuKeyPressEffect, MenuPosition, Rect, TrayAction,
    TrayMessage, DOUBLE_CLICK_MS, KEY_REPEAT_MS, NIN_KEYSELECT, NWG_TRAY, WM_CONTEXTMENU,
    WM_DPICHANGED, WM_EXITMENULOOP, WM_MBUTTONDOWN, WM_MENUCHAR, WM_THEMECHANGED,
    WM_WININICHANGE,
};
use virtual_desktop_manager::tray_icons::{
    decimal_digits, get_included_icon, IconPlan, IconType, TextLayout,
};
use virtual_desktop_manager::tray_plugins::desktop_events_dynamic::{
    changed_event, count_event, remembered_count, MESSAGE_OFFSET,
};
use virtual_desktop_manager::tray_plugins::menus::{
    flat_menu_needs_rebuild, flat_menu_wanted, is_current_item, quick_menu_needs_rebuild,
    quick_menu_parent, quick_menu_wanted, quick_switch_key, top_menu_needs_rebuild,
    top_menu_wanted, QuickMenuParent, QuickSwitchKey,
};
use virtual_desktop_manager::vd::{
    desktop_name_bytes, get_desktop, next_desktop, previous_desktop, Desktop, DesktopEvent,
    NameError,
};

#[test]
fn the_menu_opens_where_it_is_asked_to() {
    let rect = Rect { left: 100, top: 10, right: 121, bottom: 30 };
    let cursor = (7, 8);
    assert_eq!(MenuPosition::At(1, 2).resolve(Some((3, 4)), Some(rect), cursor), (1, 2));
    assert_eq!(MenuPosition::AtPrevious.resolve(Some((3, 4)), Some(rect), cursor), (3, 4));
    assert_eq!(MenuPosition::AtPrevious.resolve(None, Some(rect), cursor), (7, 8));
    assert_eq!(MenuPosition::AtTrayIcon.resolve(Some((3, 4)), Some(rect), cursor), (110, 20));
    assert_eq!(MenuPosition::AtTrayIcon.resolve(Some((3, 4)), None, cursor), (7, 8));
    assert_eq!(MenuPosition::AtMouseCursor.resolve(Some((3, 4)), Some(rect), cursor), (7, 8));
}

#[test]
fn the_midpoint_is_rounded_towards_zero_and_never_overflows() {
    assert_eq!(midpoint(0, 0), 0);
    assert_eq!(midpoint(1, 2), 1);
    assert_eq!(midpoint(-1, -2), -1);
    assert_eq!(midpoint(-3, 0), -1);
    assert_eq!(midpoint(i32::MAX, i32::MAX), i32::MAX);
    assert_eq!(midpoint(i32::MIN, i32::MIN), i32::MIN);
    assert_eq!(midpoint(i32::MIN, i32::MAX), 0);
    assert_eq!(Rect { left: -10, top: -5, right: 0, bottom: 0 }.center(), (-5, -2));
}

#[test]
fn a_key_press_in_the_menu_is_answered_in_two_words() {
    let item = ControlHandle::MenuItem(5, 6);
    let menu = ControlHandle::Menu(5, 6);
    let window = ControlHandle::Hwnd(5);
    assert_eq!(MenuKeyPressEffect::Ignore.answer(Some(3)), 0);
    assert_eq!(MenuKeyPressEffect::Close.answer(None), 1 << 16);
    assert_eq!(MenuKeyPressEffect::Execute(item).answer(Some(3)), 2 << 16 | 3);
    assert_eq!(MenuKeyPressEffect::Select(menu).answer(Some(0)), 3 << 16);
    assert_eq!(MenuKeyPressEffect::Select(menu).answer(Some(65535)), 3 << 16 | 65535);
    assert_eq!(MenuKeyPressEffect::Select(menu).answer(Some(65536)), 0);
    assert_eq!(MenuKeyPressEffect::Execute(item).answer(None), 0);
    assert_eq!(MenuKeyPressEffect::Execute(window).answer(Some(3)), 0);
    assert_eq!(MenuKeyPressEffect::Execute(item).item(), Some(item));
    assert_eq!(MenuKeyPressEffect::Close.item(), None);
}

#[test]
fn the_first_plugin_that_picks_an_effect_wins() {
    let menu = ControlHandle::Menu(1, 2);
    assert_eq!(notify_key_press_in_menu(&vec![]), None);
    assert_eq!(notify_key_press_in_menu(&vec![None, None]), None);
    assert_eq!(
        notify_key_press_in_menu(&vec![
            None,
            Some(MenuKeyPressEffect::Select(menu)),
            Some(MenuKeyPressEffect::Close)
        ]),
        Some(MenuKeyPressEffect::Select(menu))
    );
}

#[test]
fn native_messages_are_told_apart() {
    let restart = 49999;
    assert_eq!(NWG_TRAY, 1126);
    assert_eq!(classify_message(NWG_TRAY, restart), TrayMessage::TrayIcon);
    assert_eq!(classify_message(WM_EXITMENULOOP, restart), TrayMessage::MenuClosed);
    assert_eq!(classify_message(WM_MENUCHAR, restart), TrayMessage::MenuKeyPress);
    assert_eq!(classify_message(WM_THEMECHANGED, restart), TrayMessage::WindowsModeChanged);
    assert_eq!(classify_message(WM_WININICHANGE, restart), TrayMessage::WindowsModeChanged);
    assert_eq!(classify_message(restart, restart), TrayMessage::ExplorerRestarted);
    assert_eq!(classify_message(WM_DPICHANGED, restart), TrayMessage::DpiChanged);
    assert_eq!(classify_message(1, restart), TrayMessage::Other);
    // A message that is its own announcement is still what it is.
    assert_eq!(classify_message(WM_DPICHANGED, WM_DPICHANGED), TrayMessage::ExplorerRestarted);
}

#[test]
fn tray_events_become_actions() {
    assert_eq!(NIN_KEYSELECT, 1025);
    assert_eq!(tray_action(NIN_KEYSELECT, 0, 0, None), TrayAction::LeftClick);
    assert_eq!(tray_action(NIN_KEYSELECT, 0, 0, Some(99)), TrayAction::Nothing);
    assert_eq!(tray_action(NIN_KEYSELECT, 0, 0, Some(100)), TrayAction::LeftClick);
    assert_eq!(tray_action(WM_MBUTTONDOWN, 1, 2, None), TrayAction::MiddleClick);
    assert_eq!(tray_action(WM_CONTEXTMENU, -3, 400, None), TrayAction::ShowMenu(-3, 400));
    assert_eq!(tray_action(1024, 1, 2, None), TrayAction::Nothing);
    assert_eq!(KEY_REPEAT_MS, 100);
    assert_eq!(DOUBLE_CLICK_MS, 300);
    assert!(is_repeat(Some(299), DOUBLE_CLICK_MS));
    assert!(!is_repeat(Some(300), DOUBLE_CLICK_MS));
    assert!(!is_repeat(None, DOUBLE_CLICK_MS));
}

#[test]
fn the_tray_icon_is_rebuilt_three_times_after_the_start() {
    assert_eq!(next_startup_rebuild(0), Some(30));
    assert_eq!(next_startup_rebuild(29), Some(30));
    assert_eq!(next_startup_rebuild(30), Some(60));
    assert_eq!(next_startup_rebuild(59), Some(60));
    assert_eq!(next_startup_rebuild(60), Some(90));
    assert_eq!(next_startup_rebuild(89), Some(90));
    assert_eq!(next_startup_rebuild(90), None);
}

#[test]
fn the_icon_follows_the_setting() {
    assert_eq!(
        icon_for_setting(TrayIconType::WithBackground, true),
        Some(IconType::WithBackground { allow_hardcoded: true, light_theme: true })
    );
    assert_eq!(
        icon_for_setting(TrayIconType::WithBackgroundNoHardcoded, false),
        Some(IconType::WithBackground { allow_hardcoded: false, light_theme: false })
    );
    assert_eq!(
        icon_for_setting(TrayIconType::NoBackground, true),
        Some(IconType::NoBackground { light_theme: true })
    );
    assert_eq!(icon_for_setting(TrayIconType::NoBackground2, true), Some(IconType::NoBackgroundAlt));
    assert_eq!(icon_for_setting(TrayIconType::AppIcon, false), None);
}

#[test]
fn the_first_nine_desktops_have_an_icon_of_their_own() {
    assert_eq!(get_included_icon(0), None);
    assert_eq!(get_included_icon(1), Some(1));
    assert_eq!(get_included_icon(9), Some(9));
    assert_eq!(get_included_icon(10), None);
}

#[test]
fn decimal_digits_are_counted() {
    assert_eq!(decimal_digits(0), 1);
    assert_eq!(decimal_digits(9), 1);
    assert_eq!(decimal_digits(10), 2);
    assert_eq!(decimal_digits(99), 2);
    assert_eq!(decimal_digits(100), 3);
    assert_eq!(decimal_digits(999_999_999), 9);
    assert_eq!(decimal_digits(1_000_000_000), 10);
    assert_eq!(decimal_digits(u32::MAX), 10);
}

#[test]
fn icons_are_planned() {
    let framed = IconType::WithBackground { allow_hardcoded: true, light_theme: false };
    assert_eq!(framed.generate_icon(3), IconPlan::Included(3));
    assert_eq!(
        framed.generate_icon(12),
        IconPlan::WithBackground {
            number: 12,
            light_theme: false,
            text: TextLayout { x: 110, y: 56, scale_x: 150, scale_y: 180, white: true }
        }
    );
    let light = IconType::WithBackground { allow_hardcoded: true, light_theme: true };
    assert_eq!(
        light.generate_icon(3),
        IconPlan::WithBackground {
            number: 3,
            light_theme: true,
            text: TextLayout { x: 130, y: 56, scale_x: 150, scale_y: 180, white: false }
        }
    );
    let drawn = IconType::WithBackground { allow_hardcoded: false, light_theme: false };
    assert!(matches!(drawn.generate_icon(3), IconPlan::WithBackground { .. }));
    let bare = IconType::NoBackground { light_theme: false };
    assert_eq!(
        bare.generate_icon(7),
        IconPlan::NoBackground {
            number: 7,
            text: TextLayout { x: 0, y: -130, scale_x: 660, scale_y: 490, white: true }
        }
    );
    assert_eq!(
        bare.generate_icon(42),
        IconPlan::NoBackground {
            number: 42,
            text: TextLayout { x: -8, y: -130, scale_x: 330, scale_y: 490, white: true }
        }
    );
    assert_eq!(
        IconType::NoBackground { light_theme: true }.generate_icon(100),
        IconPlan::NoBackground {
            number: 100,
            text: TextLayout { x: -8, y: -130, scale_x: 210, scale_y: 490, white: false }
        }
    );
    assert_eq!(IconType::NoBackgroundAlt.generate_icon(5), IconPlan::NoBackgroundAlt { number: 5 });
}

#[test]
fn menus_are_rebuilt_when_the_settings_or_the_desktops_change() {
    assert!(top_menu_wanted(QuickSwitchMenu::SubMenu));
    assert!(!top_menu_wanted(QuickSwitchMenu::TopMenu));
    assert!(top_menu_needs_rebuild(QuickSwitchMenu::Disabled, true));
    assert!(!top_menu_needs_rebuild(QuickSwitchMenu::SubMenu, true));
    assert!(top_menu_needs_rebuild(QuickSwitchMenu::SubMenu, false));
    assert!(!top_menu_needs_rebuild(QuickSwitchMenu::TopMenu, false));

    assert!(flat_menu_wanted(QuickSwitchMenu::Disabled));
    assert!(!flat_menu_wanted(QuickSwitchMenu::TopMenu));
    assert!(flat_menu_needs_rebuild(QuickSwitchMenu::TopMenu, 3, 3));
    assert!(!flat_menu_needs_rebuild(QuickSwitchMenu::TopMenu, 0, 3));
    assert!(!flat_menu_needs_rebuild(QuickSwitchMenu::SubMenu, 3, 3));
    assert!(flat_menu_needs_rebuild(QuickSwitchMenu::SubMenu, 3, 4));

    assert!(!quick_menu_wanted(QuickSwitchMenu::Disabled));
    assert!(quick_menu_wanted(QuickSwitchMenu::TopMenu));
    assert!(quick_menu_needs_rebuild(QuickSwitchMenu::Disabled, 3, 3, false));
    assert!(!quick_menu_needs_rebuild(QuickSwitchMenu::Disabled, 0, 3, false));
    assert!(quick_menu_needs_rebuild(QuickSwitchMenu::Disabled, 0, 3, true));
    assert!(!quick_menu_needs_rebuild(QuickSwitchMenu::SubMenu, 3, 3, false));
    assert!(quick_menu_needs_rebuild(QuickSwitchMenu::SubMenu, 2, 3, false));
    assert_eq!(quick_menu_parent(true), QuickMenuParent::TopMenu);
    assert_eq!(quick_menu_parent(false), QuickMenuParent::Root);
}

#[test]
fn the_flat_list_starts_with_the_last_desktop() {
    assert!(is_current_item(0, 3, 2));
    assert!(is_current_item(2, 3, 0));
    assert!(!is_current_item(0, 3, 0));
    assert!(is_current_item(0, 1, 0));
}

#[test]
fn keys_in_the_quick_switch_menu() {
    assert_eq!(quick_switch_key('q' as u32), QuickSwitchKey::OpenMenu);
    assert_eq!(quick_switch_key('Q' as u32), QuickSwitchKey::OpenMenu);
    assert_eq!(quick_switch_key(' ' as u32), QuickSwitchKey::Commit);
    assert_eq!(quick_switch_key(8), QuickSwitchKey::Back);
    assert_eq!(quick_switch_key('1' as u32), QuickSwitchKey::Other);
}

#[test]
fn a_change_of_the_number_of_desktops_becomes_an_event() {
    let current = Some(Desktop::Index(1));
    assert_eq!(count_event(3, 3, current), None);
    assert_eq!(count_event(3, 4, None), Some(DesktopEvent::DesktopCreated(Desktop::Index(3))));
    assert_eq!(
        count_event(3, 2, current),
        Some(DesktopEvent::DesktopDestroyed {
            destroyed: Desktop::Index(2),
            fallback: Desktop::Index(1)
        })
    );
    assert_eq!(count_event(3, 2, None), None);
    assert_eq!(remembered_count(3, 2, None), 3);
    assert_eq!(remembered_count(3, 2, current), 2);
    assert_eq!(remembered_count(3, 4, None), 4);
}

#[test]
fn the_message_of_the_hook_becomes_an_event() {
    let event = RawEvent { hwnd: 77, msg: MESSAGE_OFFSET, w: 2, l: 5 };
    assert_eq!(
        changed_event(event, Some(77)),
        Some(DesktopEvent::DesktopChanged { new: Desktop::Index(5), old: Desktop::Index(2) })
    );
    assert_eq!(changed_event(event, Some(78)), None);
    assert_eq!(changed_event(event, None), None);
    assert_eq!(changed_event(RawEvent { msg: 1, ..event }, Some(77)), None);
}

#[test]
fn desktops_are_named_by_position() {
    assert_eq!(get_desktop(4), Desktop::Index(4));
    assert_eq!(Desktop::Index(4).index(), Some(4));
    assert_eq!(Desktop::Guid(9).index(), None);
    assert_eq!(next_desktop(0, 3), Some(1));
    assert_eq!(next_desktop(2, 3), Some(2));
    assert_eq!(next_desktop(7, 3), Some(2));
    assert_eq!(next_desktop(0, 0), None);
    assert_eq!(next_desktop(u32::MAX, u32::MAX), Some(u32::MAX - 1));
    assert_eq!(previous_desktop(0), 0);
    assert_eq!(previous_desktop(5), 4);
}

#[test]
fn the_name_of_a_desktop_ends_at_the_first_zero() {
    assert_eq!(desktop_name_bytes(&vec![b'A', b'b', 0, b'x', 0], 1), Ok(vec![b'A', b'b']));
    assert_eq!(desktop_name_bytes(&vec![0, 0], -1), Ok(vec![]));
    assert_eq!(desktop_name_bytes(&vec![b'A'], 1), Err(NameError::DesktopNameWithoutNul));
    assert_eq!(desktop_name_bytes(&vec![], 1), Err(NameError::DesktopNameWithoutNul));
    assert_eq!(desktop_name_bytes(&vec![b'A', 0], 0), Err(NameError::NotAvailable));
}

fn names(all: &[Option<&str>]) -> Vec<Option<String>> {
    all.iter().map(|n| n.map(str::to_string)).collect()
}

#[test]
fn the_names_of_the_desktops_follow_their_number() {
    let mut known = names(&[Some("Work"), None, Some("Play")]);
    assert_eq!(names_to_fetch(known.len(), 3), None);
    assert_eq!(names_to_fetch(known.len(), 2), None);
    assert_eq!(names_to_fetch(known.len(), 5), Some((3, 5)));
    resize_names(&mut known, 3, names(&[Some("ignored")]));
    assert_eq!(known, names(&[Some("Work"), None, Some("Play")]));
    resize_names(&mut known, 5, names(&[Some("Mail"), None]));
    assert_eq!(known, names(&[Some("Work"), None, Some("Play"), Some("Mail"), None]));
    resize_names(&mut known, 2, vec![]);
    assert_eq!(known, names(&[Some("Work"), None]));
    // Names that were not fetched are unknown; names beyond the number of
    // desktops are not taken.
    resize_names(&mut known, 4, names(&[Some("Chat")]));
    assert_eq!(known, names(&[Some("Work"), None, Some("Chat"), None]));
    resize_names(&mut known, 5, names(&[Some("a"), Some("b")]));
    assert_eq!(known.len(), 5);
    assert_eq!(known[4], Some("a".to_string()));
    resize_names(&mut known, 0, vec![]);
    assert!(known.is_empty());
}

#[test]
fn a_desktop_is_renamed_if_it_is_known() {
    let mut known = names(&[Some("Work"), None]);
    set_desktop_name(&mut known, 1, "Play".to_string());
    assert_eq!(known, names(&[Some("Work"), Some("Play")]));
    set_desktop_name(&mut known, 2, "Lost".to_string());
    assert_eq!(known, names(&[Some("Work"), Some("Play")]));
    assert_eq!(get_desktop_name(&known, 0), Some("Work".to_string()));
    assert_eq!(get_desktop_name(&known, 2), None);
    assert_eq!(get_desktop_name(&names(&[None]), 0), None);
}

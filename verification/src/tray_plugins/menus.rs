//! When the menus of the tray have to be rebuilt, and what keys do in them.

use vstd::prelude::*;
use crate::settings::QuickSwitchMenu;

verus! {

/// Whether the submenu that holds the quick switch items is wanted.
pub fn top_menu_wanted(setting: QuickSwitchMenu) -> (r: bool)
    ensures
        r == (setting == QuickSwitchMenu::SubMenu),
{
    setting == QuickSwitchMenu::SubMenu
}

/// Whether the submenu has to be rebuilt: it is there and not wanted, or
/// wanted and not there.
///
/// The engine asks only plugins that are built. For a submenu that is not
/// there, whoever changes the setting asks this and has the interface built
/// anew.
pub fn top_menu_needs_rebuild(setting: QuickSwitchMenu, is_built: bool) -> (r: bool)
    ensures
        r == ((setting == QuickSwitchMenu::SubMenu) != is_built),
{
    top_menu_wanted(setting) != is_built
}

/// Whether the flat list with one item per desktop is wanted: it gives way
/// to quick switch items at the top level of the menu.
pub fn flat_menu_wanted(setting: QuickSwitchMenu) -> (r: bool)
    ensures
        r == (setting != QuickSwitchMenu::TopMenu),
{
    setting != QuickSwitchMenu::TopMenu
}

/// The number of items that the flat list should have.
pub open spec fn spec_flat_items(setting: QuickSwitchMenu, desktop_count: u32) -> u32 {
    if setting == QuickSwitchMenu::TopMenu {
        0
    } else {
        desktop_count
    }
}

/// Whether the flat list has to be rebuilt: it was built for another number
/// of desktops than it should show.
pub fn flat_menu_needs_rebuild(setting: QuickSwitchMenu, built_for: u32, desktop_count: u32) -> (r:
    bool)
    ensures
        r == (built_for != spec_flat_items(setting, desktop_count)),
{
    if setting == QuickSwitchMenu::TopMenu {
        built_for != 0
    } else {
        built_for != desktop_count
    }
}

/// Whether the quick switch items are wanted.
pub fn quick_menu_wanted(setting: QuickSwitchMenu) -> (r: bool)
    ensures
        r == (setting != QuickSwitchMenu::Disabled),
{
    setting != QuickSwitchMenu::Disabled
}

/// Where the quick switch items go.
#[derive(Clone, Copy, PartialEq, Eq, Structural, Debug)]
pub enum QuickMenuParent {
    /// Into the submenu made for them.
    TopMenu,
    /// Into the context menu itself, set off by separators.
    Root,
}

/// Where the quick switch items go: into their submenu if it is built.
pub fn quick_menu_parent(top_menu_built: bool) -> (r: QuickMenuParent)
    ensures
        r == if top_menu_built {
            QuickMenuParent::TopMenu
        } else {
            QuickMenuParent::Root
        },
{
    if top_menu_built {
        QuickMenuParent::TopMenu
    } else {
        QuickMenuParent::Root
    }
}

/// Whether the quick switch items have to be rebuilt: they were built for
/// another number of desktops than they should show, or with other
/// shortcuts.
pub fn quick_menu_needs_rebuild(
    setting: QuickSwitchMenu,
    built_for: u32,
    desktop_count: u32,
    shortcuts_changed: bool,
) -> (r: bool)
    ensures
        r == (shortcuts_changed || built_for != if setting == QuickSwitchMenu::Disabled {
            0
        } else {
            desktop_count
        }),
{
    let has_moved_menu = if setting == QuickSwitchMenu::Disabled {
        built_for != 0
    } else {
        built_for != desktop_count
    };
    has_moved_menu || shortcuts_changed
}

/// Whether the item at `position` of the flat list stands for the current
/// desktop. The items are listed with the last desktop first.
pub fn is_current_item(position: usize, item_count: usize, current_desktop: u32) -> (r: bool)
    requires
        position < item_count,
    ensures
        r == (item_count - 1 - position == current_desktop),
{
    let from_end: usize = item_count - 1 - position;
    from_end as u64 == current_desktop as u64
}

/// What a key does in the quick switch menu.
#[derive(Clone, Copy, PartialEq, Eq, Structural, Debug)]
pub enum QuickSwitchKey {
    /// Go to the first quick switch item.
    OpenMenu,
    /// Switch to the desktop whose number was entered so far.
    Commit,
    /// Leave the menu one level up.
    Back,
    /// The key means nothing here.
    Other,
}

/// The key codes that mean something in the quick switch menu.
pub const KEY_BACKSPACE: u32 = 8;

pub const KEY_SPACE: u32 = 32;

pub const KEY_UPPER_Q: u32 = 81;

pub const KEY_LOWER_Q: u32 = 113;

/// What the key with the code `key_code` does in the quick switch menu.
pub fn quick_switch_key(key_code: u32) -> (r: QuickSwitchKey)
    ensures
        r == if key_code == KEY_LOWER_Q || key_code == KEY_UPPER_Q {
            QuickSwitchKey::OpenMenu
        } else if key_code == KEY_SPACE {
            QuickSwitchKey::Commit
        } else if key_code == KEY_BACKSPACE {
            QuickSwitchKey::Back
        } else {
            QuickSwitchKey::Other
        },
{
    if key_code == KEY_LOWER_Q || key_code == KEY_UPPER_Q {
        QuickSwitchKey::OpenMenu
    } else if key_code == KEY_SPACE {
        QuickSwitchKey::Commit
    } else if key_code == KEY_BACKSPACE {
        QuickSwitchKey::Back
    } else {
        QuickSwitchKey::Other
    }
}

} // verus!

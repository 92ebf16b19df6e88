//! The choices that a user can make, and the text that stands for each in the
//! configuration window.

use vstd::prelude::*;

verus! {

/// Whether the program starts together with the system.
#[derive(Clone, Copy, PartialEq, Eq, Structural, Debug)]
pub enum AutoStart {
    Disabled,
    Enabled,
    Elevated,
}

impl AutoStart {
    /// The choices that are on offer, in the order in which they are shown.
    /// Starting without admin rights is not on offer.
    pub fn all() -> (r: Vec<Self>)
        ensures
            r@ == seq![AutoStart::Disabled, AutoStart::Elevated],
    {
        vec![AutoStart::Disabled, AutoStart::Elevated]
    }

    /// The text that stands for the choice.
    pub open spec fn spec_label(self) -> Seq<char> {
        match self {
            AutoStart::Disabled => "No"@,
            AutoStart::Enabled => "Yes"@,
            AutoStart::Elevated => "Yes, with admin rights"@,
        }
    }

    /// The text that stands for the choice.
    pub fn label(&self) -> (r: &'static str)
        ensures
            r@ == self.spec_label(),
    {
        match self {
            AutoStart::Disabled => "No",
            AutoStart::Enabled => "Yes",
            AutoStart::Elevated => "Yes, with admin rights",
        }
    }
}

impl Default for AutoStart {
    fn default() -> (r: Self)
        ensures
            r == AutoStart::Disabled,
    {
        AutoStart::Disabled
    }
}

/// Where the menu is that switches to a desktop by its number.
#[derive(Clone, Copy, PartialEq, Eq, Structural, Debug)]
pub enum QuickSwitchMenu {
    Disabled,
    TopMenu,
    SubMenu,
}

impl QuickSwitchMenu {
    /// The choices that are on offer, in the order in which they are shown.
    pub fn all() -> (r: Vec<Self>)
        ensures
            r@ == seq![QuickSwitchMenu::Disabled, QuickSwitchMenu::TopMenu, QuickSwitchMenu::SubMenu],
    {
        vec![QuickSwitchMenu::Disabled, QuickSwitchMenu::TopMenu, QuickSwitchMenu::SubMenu]
    }

    /// The text that stands for the choice.
    pub open spec fn spec_label(self) -> Seq<char> {
        match self {
            QuickSwitchMenu::Disabled => "Off"@,
            QuickSwitchMenu::TopMenu => "Inside the main context menu"@,
            QuickSwitchMenu::SubMenu => "Inside a submenu"@,
        }
    }

    /// The text that stands for the choice.
    pub fn label(&self) -> (r: &'static str)
        ensures
            r@ == self.spec_label(),
    {
        match self {
            QuickSwitchMenu::Disabled => "Off",
            QuickSwitchMenu::TopMenu => "Inside the main context menu",
            QuickSwitchMenu::SubMenu => "Inside a submenu",
        }
    }
}

impl Default for QuickSwitchMenu {
    fn default() -> (r: Self)
        ensures
            r == QuickSwitchMenu::SubMenu,
    {
        QuickSwitchMenu::SubMenu
    }
}

/// The kind of icon that is shown in the system tray.
#[derive(Clone, Copy, PartialEq, Eq, Structural, Debug)]
pub enum TrayIconType {
    /// A frame around the desktop's number; for low numbers an icon that
    /// ships with the program is used.
    WithBackground,
    /// A frame around the desktop's number, always drawn.
    WithBackgroundNoHardcoded,
    /// Only the desktop's number, in black or white.
    NoBackground,
    /// Only the desktop's number, in colour.
    NoBackground2,
    /// The icon of the program itself.
    AppIcon,
}

impl TrayIconType {
    /// The choices that are on offer, in the order in which they are shown.
    pub fn all() -> (r: Vec<Self>)
        ensures
            r@ == seq![
                TrayIconType::WithBackground,
                TrayIconType::WithBackgroundNoHardcoded,
                TrayIconType::NoBackground,
                TrayIconType::NoBackground2,
                TrayIconType::AppIcon,
            ],
    {
        vec![
            TrayIconType::WithBackground,
            TrayIconType::WithBackgroundNoHardcoded,
            TrayIconType::NoBackground,
            TrayIconType::NoBackground2,
            TrayIconType::AppIcon,
        ]
    }

    /// The text that stands for the choice.
    pub open spec fn spec_label(self) -> Seq<char> {
        match self {
            TrayIconType::WithBackground => "Hardcoded number inside icon"@,
            TrayIconType::WithBackgroundNoHardcoded => "Generated number inside icon"@,
            TrayIconType::NoBackground => "Only black and white number"@,
            TrayIconType::NoBackground2 => "Only purple number"@,
            TrayIconType::AppIcon => "Only program icon, no number"@,
        }
    }

    /// The text that stands for the choice.
    pub fn label(&self) -> (r: &'static str)
        ensures
            r@ == self.spec_label(),
    {
        match self {
            TrayIconType::WithBackground => "Hardcoded number inside icon",
            TrayIconType::WithBackgroundNoHardcoded => "Generated number inside icon",
            TrayIconType::NoBackground => "Only black and white number",
            TrayIconType::NoBackground2 => "Only purple number",
            TrayIconType::AppIcon => "Only program icon, no number",
        }
    }
}

impl Default for TrayIconType {
    fn default() -> (r: Self)
        ensures
            r == TrayIconType::WithBackground,
    {
        TrayIconType::WithBackground
    }
}

/// What a click on the tray icon does.
#[derive(Clone, Copy, PartialEq, Eq, Structural, Debug)]
pub enum TrayClickAction {
    Disabled,
    StopFlashingWindows,
    ToggleConfigurationWindow,
    ApplyFilters,
    OpenContextMenu,
}

impl TrayClickAction {
    /// The choices that are on offer, in the order in which they are shown.
    pub fn all() -> (r: Vec<Self>)
        ensures
            r@ == seq![
                TrayClickAction::Disabled,
                TrayClickAction::StopFlashingWindows,
                TrayClickAction::ToggleConfigurationWindow,
                TrayClickAction::ApplyFilters,
                TrayClickAction::OpenContextMenu,
            ],
    {
        vec![
            TrayClickAction::Disabled,
            TrayClickAction::StopFlashingWindows,
            TrayClickAction::ToggleConfigurationWindow,
            TrayClickAction::ApplyFilters,
            TrayClickAction::OpenContextMenu,
        ]
    }

    /// The text that stands for the choice.
    pub open spec fn spec_label(self) -> Seq<char> {
        match self {
            TrayClickAction::Disabled => "Disabled"@,
            TrayClickAction::StopFlashingWindows => "Stop Flashing Windows"@,
            TrayClickAction::ToggleConfigurationWindow => "Open/Close Config Window"@,
            TrayClickAction::ApplyFilters => "Apply Filters"@,
            TrayClickAction::OpenContextMenu => "Open Context Menu"@,
        }
    }

    /// The text that stands for the choice.
    pub fn label(&self) -> (r: &'static str)
        ensures
            r@ == self.spec_label(),
    {
        match self {
            TrayClickAction::Disabled => "Disabled",
            TrayClickAction::StopFlashingWindows => "Stop Flashing Windows",
            TrayClickAction::ToggleConfigurationWindow => "Open/Close Config Window",
            TrayClickAction::ApplyFilters => "Apply Filters",
            TrayClickAction::OpenContextMenu => "Open Context Menu",
        }
    }
}

impl Default for TrayClickAction {
    fn default() -> (r: Self)
        ensures
            r == TrayClickAction::Disabled,
    {
        TrayClickAction::Disabled
    }
}

/// Where the configuration window was when it was last closed.
#[derive(Clone, Copy, PartialEq, Eq, Debug)]
pub struct ConfigWindowInfo {
    pub position: Option<(i32, i32)>,
    pub size: (u32, u32),
    pub maximized: bool,
}

impl Default for ConfigWindowInfo {
    fn default() -> (r: Self)
        ensures
            r == (ConfigWindowInfo { position: None, size: (800, 600), maximized: false }),
    {
        ConfigWindowInfo { position: None, size: (800, 600), maximized: false }
    }
}

/// The version of the settings that this program writes.
pub const CURRENT_VERSION: u64 = 2;

/// The version to record for settings that were read from a file of the
/// version `found`: always the one that this program writes.
pub fn migrate(found: u64) -> (r: u64)
    ensures
        r == CURRENT_VERSION,
{
    CURRENT_VERSION
}

/// Whether a missing hotkey for the menu at the mouse is explained by the age
/// of the settings file: files up to version 1 have no such entry, and the
/// entry can be taken as empty.
pub fn missing_hotkey_is_expected(version: Option<u64>, has_hotkey: bool) -> (r: bool)
    ensures
        r == (!has_hotkey && match version {
            Some(v) => v <= 1,
            None => false,
        }),
{
    !has_hotkey && match version {
        Some(v) => v <= 1,
        None => false,
    }
}

} // verus!

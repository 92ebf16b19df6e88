//! Decisions of the tray icon: where its menu opens, what a native message
//! means, and what a key press in the menu answers.

use vstd::prelude::*;
use crate::dynamic_gui::ControlHandle;
use crate::settings::TrayIconType;
use crate::tray_icons::IconType;

verus! {

/// Where the context menu should open.
#[derive(Clone, Copy, PartialEq, Eq, Structural, Debug)]
pub enum MenuPosition {
    At(i32, i32),
    AtPrevious,
    AtTrayIcon,
    AtMouseCursor,
}

/// A rectangle on the screen.
#[derive(Clone, Copy, PartialEq, Eq, Structural, Debug)]
pub struct Rect {
    pub left: i32,
    pub top: i32,
    pub right: i32,
    pub bottom: i32,
}

/// The integer halfway between `a` and `b`, rounded towards zero.
pub open spec fn spec_midpoint(a: int, b: int) -> int {
    if a + b >= 0 {
        (a + b) / 2
    } else {
        -((-(a + b)) / 2)
    }
}

/// The integer halfway between `a` and `b`, rounded towards zero.
pub fn midpoint(a: i32, b: i32) -> (r: i32)
    ensures
        r == spec_midpoint(a as int, b as int),
{
    let sum: i64 = a as i64 + b as i64;
    if sum >= 0 {
        (sum / 2) as i32
    } else {
        (-((-sum) / 2)) as i32
    }
}

impl Rect {
    /// The point in the middle of the rectangle.
    pub fn center(&self) -> (r: (i32, i32))
        ensures
            r.0 == spec_midpoint(self.left as int, self.right as int),
            r.1 == spec_midpoint(self.top as int, self.bottom as int),
    {
        (midpoint(self.left, self.right), midpoint(self.top, self.bottom))
    }
}

impl MenuPosition {
    /// The point that the position stands for.
    ///
    /// `previous` is where the menu was last shown, `tray_icon` is the
    /// rectangle of the tray icon if the system told it, and `cursor` is where
    /// the mouse is. Where the wanted point is not known, the menu opens at
    /// the mouse.
    pub open spec fn spec_resolve(
        self,
        previous: Option<(i32, i32)>,
        tray_icon: Option<Rect>,
        cursor: (i32, i32),
    ) -> (i32, i32) {
        match self {
            MenuPosition::At(x, y) => (x, y),
            MenuPosition::AtPrevious => match previous {
                Some(p) => p,
                None => cursor,
            },
            MenuPosition::AtTrayIcon => match tray_icon {
                Some(rect) => (
                    spec_midpoint(rect.left as int, rect.right as int) as i32,
                    spec_midpoint(rect.top as int, rect.bottom as int) as i32,
                ),
                None => cursor,
            },
            MenuPosition::AtMouseCursor => cursor,
        }
    }

    /// The point that the position stands for.
    pub fn resolve(self, previous: Option<(i32, i32)>, tray_icon: Option<Rect>, cursor: (i32, i32)) -> (r:
        (i32, i32))
        ensures
            r == self.spec_resolve(previous, tray_icon, cursor),
    {
        match self {
            MenuPosition::At(x, y) => (x, y),
            MenuPosition::AtPrevious => match previous {
                Some(p) => p,
                None => cursor,
            },
            MenuPosition::AtTrayIcon => match tray_icon {
                Some(rect) => rect.center(),
                None => cursor,
            },
            MenuPosition::AtMouseCursor => cursor,
        }
    }
}

/// What a key press in an open menu should do.
#[derive(Clone, Copy, PartialEq, Eq, Structural, Debug)]
pub enum MenuKeyPressEffect {
    /// Discard the key.
    Ignore,
    /// Close the menu.
    Close,
    /// Choose the given item and close the menu.
    Execute(ControlHandle),
    /// Select the given item.
    Select(ControlHandle),
}

/// The answers to a key press in a menu take the action in the high word and
/// the position of an item in the low word.
pub const MENU_ANSWER_IGNORE: isize = 0;

pub const MENU_ANSWER_CLOSE: isize = 0x1_0000;

pub const MENU_ANSWER_EXECUTE: isize = 0x2_0000;

pub const MENU_ANSWER_SELECT: isize = 0x3_0000;

/// Whether a handle is one of a menu or of a menu item.
pub open spec fn is_menu_handle(handle: ControlHandle) -> bool {
    handle is Menu || handle is MenuItem
}

/// The answer to a key press in a menu.
///
/// `item_index` is the position, within its parent menu, of the item that
/// the effect names, if the system could tell it. An item that is no menu
/// and no menu item, whose position is unknown or does not fit the low word
/// makes the key press count as ignored.
pub open spec fn spec_menu_answer(effect: MenuKeyPressEffect, item_index: Option<u32>) -> int {
    match effect {
        MenuKeyPressEffect::Ignore => 0,
        MenuKeyPressEffect::Close => 0x1_0000,
        MenuKeyPressEffect::Execute(handle) => match item_index {
            Some(ix) => if is_menu_handle(handle) && ix < 0x1_0000 {
                0x2_0000 + ix
            } else {
                0
            },
            None => 0,
        },
        MenuKeyPressEffect::Select(handle) => match item_index {
            Some(ix) => if is_menu_handle(handle) && ix < 0x1_0000 {
                0x3_0000 + ix
            } else {
                0
            },
            None => 0,
        },
    }
}

impl MenuKeyPressEffect {
    /// The item that the effect names, if it names one.
    pub fn item(&self) -> (r: Option<ControlHandle>)
        ensures
            r == match *self {
                MenuKeyPressEffect::Execute(h) => Some(h),
                MenuKeyPressEffect::Select(h) => Some(h),
                _ => None,
            },
    {
        match self {
            MenuKeyPressEffect::Execute(h) => Some(*h),
            MenuKeyPressEffect::Select(h) => Some(*h),
            _ => None,
        }
    }

    /// The answer to give to the native message for a key press in a menu.
    pub fn answer(&self, item_index: Option<u32>) -> (r: isize)
        ensures
            r == spec_menu_answer(*self, item_index),
    {
        let (handle, action) = match self {
            MenuKeyPressEffect::Ignore => {
                return MENU_ANSWER_IGNORE;
            },
            MenuKeyPressEffect::Close => {
                return MENU_ANSWER_CLOSE;
            },
            MenuKeyPressEffect::Execute(handle) => (*handle, MENU_ANSWER_EXECUTE),
            MenuKeyPressEffect::Select(handle) => (*handle, MENU_ANSWER_SELECT),
        };
        let is_menu = match handle {
            ControlHandle::Menu(_, _) => true,
            ControlHandle::MenuItem(_, _) => true,
            _ => false,
        };
        match item_index {
            Some(ix) => {
                if is_menu && ix < 0x1_0000 {
                    action + ix as isize
                } else {
                    MENU_ANSWER_IGNORE
                }
            },
            None => MENU_ANSWER_IGNORE,
        }
    }
}

/// The first of all picks of `results` that is not `None`.
pub open spec fn first_effect(results: Seq<Option<MenuKeyPressEffect>>) -> Option<MenuKeyPressEffect>
    decreases results.len(),
{
    if results.len() == 0 {
        None
    } else {
        match results[0] {
            Some(e) => Some(e),
            None => first_effect(results.drop_first()),
        }
    }
}

/// The effect of a key press, given what each plugin made of it: the first
/// effect that a plugin chose.
pub fn notify_key_press_in_menu(results: &Vec<Option<MenuKeyPressEffect>>) -> (r: Option<
    MenuKeyPressEffect,
>)
    ensures
        r == first_effect(results@),
{
    let mut ix: usize = 0;
    proof {
        assert(results@.subrange(0, results@.len() as int) =~= results@);
    }
    while ix < results.len()
        invariant
            ix <= results@.len(),
            first_effect(results@) == first_effect(results@.subrange(ix as int, results@.len() as int)),
        decreases results@.len() - ix,
    {
        let ghost rest = results@.subrange(ix as int, results@.len() as int);
        match results[ix] {
            Some(e) => {
                assert(rest[0] == Some(e));
                return Some(e);
            },
            None => {
                assert(rest[0].is_none());
                assert(rest.drop_first() =~= results@.subrange(ix + 1, results@.len() as int));
            },
        }
        ix = ix + 1;
    }
    None
}

/// Native messages that the tray's window reacts to.
pub const WM_WININICHANGE: u32 = 0x001A;

pub const WM_CONTEXTMENU: u32 = 0x007B;

pub const WM_MENUCHAR: u32 = 0x0120;

pub const WM_MBUTTONDOWN: u32 = 0x0207;

pub const WM_EXITMENULOOP: u32 = 0x0212;

pub const WM_DPICHANGED: u32 = 0x02E0;

pub const WM_THEMECHANGED: u32 = 0x031A;

/// The message through which the toolkit passes on what happened to the
/// tray icon.
pub const NWG_TRAY: u32 = 0x0400 + 102;

/// The tray icon was chosen with the keyboard.
pub const NIN_KEYSELECT: u32 = 0x0400 + 1;

/// What a native message on the tray's window means.
#[derive(Clone, Copy, PartialEq, Eq, Structural, Debug)]
pub enum TrayMessage {
    /// Something happened to the tray icon itself.
    TrayIcon,
    /// The context menu was closed.
    MenuClosed,
    /// A key was pressed while the context menu was open.
    MenuKeyPress,
    /// The colours of the system changed.
    WindowsModeChanged,
    /// The system's shell was started again and has forgotten the tray icon.
    ExplorerRestarted,
    /// The resolution of the screen changed: the tray icon has to be rebuilt.
    DpiChanged,
    /// Nothing of interest.
    Other,
}

/// What the message `msg` means. `explorer_restart` is the number under which
/// the system announces that its shell was started again.
pub open spec fn spec_classify(msg: u32, explorer_restart: u32) -> TrayMessage {
    if msg == NWG_TRAY {
        TrayMessage::TrayIcon
    } else if msg == WM_EXITMENULOOP {
        TrayMessage::MenuClosed
    } else if msg == WM_MENUCHAR {
        TrayMessage::MenuKeyPress
    } else if msg == WM_THEMECHANGED || msg == WM_WININICHANGE {
        TrayMessage::WindowsModeChanged
    } else if msg == explorer_restart {
        TrayMessage::ExplorerRestarted
    } else if msg == WM_DPICHANGED {
        TrayMessage::DpiChanged
    } else {
        TrayMessage::Other
    }
}

/// What the message `msg` means.
pub fn classify_message(msg: u32, explorer_restart: u32) -> (r: TrayMessage)
    ensures
        r == spec_classify(msg, explorer_restart),
{
    if msg == NWG_TRAY {
        TrayMessage::TrayIcon
    } else if msg == WM_EXITMENULOOP {
        TrayMessage::MenuClosed
    } else if msg == WM_MENUCHAR {
        TrayMessage::MenuKeyPress
    } else if msg == WM_THEMECHANGED || msg == WM_WININICHANGE {
        TrayMessage::WindowsModeChanged
    } else if msg == explorer_restart {
        TrayMessage::ExplorerRestarted
    } else if msg == WM_DPICHANGED {
        TrayMessage::DpiChanged
    } else {
        TrayMessage::Other
    }
}

/// What the toolkit passes on about the tray icon: the event, and the point
/// on the screen where it happened.
#[derive(Clone, Copy, PartialEq, Eq, Structural, Debug)]
pub struct TrayEvent {
    pub event: u32,
    pub x: i16,
    pub y: i16,
}

/// The low 16 bits of `v`, taken as a number with a sign.
pub open spec fn spec_low_word_signed(v: int) -> int {
    let low = v % 0x1_0000;
    if low >= 0x8000 {
        low - 0x1_0000
    } else {
        low
    }
}

/// What a message about the tray icon says: the event is in the low word of
/// the second parameter, and the point where it happened is in the two low
/// words of the first, each a number with a sign.
pub fn decode_tray_event(w: usize, l: isize) -> (r: TrayEvent)
    ensures
        r.event == l as int % 0x1_0000,
        r.x == spec_low_word_signed(w as int),
        r.y == spec_low_word_signed(w as int / 0x1_0000),
{
    let low: u64 = (w as u64) % 0x1_0000;
    let high: u64 = ((w as u64) / 0x1_0000) % 0x1_0000;
    let event: i64 = (l as i64) % 0x1_0000;
    let event: u32 = if event < 0 {
        (event + 0x1_0000) as u32
    } else {
        event as u32
    };
    TrayEvent { event, x: word_as_signed(low), y: word_as_signed(high) }
}

/// A word taken as a number with a sign.
fn word_as_signed(word: u64) -> (r: i16)
    requires
        word < 0x1_0000,
    ensures
        r == if word >= 0x8000 {
            word - 0x1_0000
        } else {
            word as int
        },
{
    if word >= 0x8000 {
        (word as i64 - 0x1_0000) as i16
    } else {
        word as i16
    }
}

/// The key that was pressed in a menu: the low word of the first parameter
/// of the message.
pub fn menu_key_code(w: usize) -> (r: u32)
    ensures
        r == w % 0x1_0000,
{
    ((w as u64) % 0x1_0000) as u32
}

/// Whether the taskbar is light, given the four bytes that the registry
/// holds for it: a little-endian number that is 1 for light and 0 for dark.
/// Any other number tells nothing.
pub fn light_taskbar_from_registry(bytes: [u8; 4]) -> (r: Option<bool>)
    ensures
        r == if bytes[1] != 0 || bytes[2] != 0 || bytes[3] != 0 {
            None
        } else if bytes[0] == 1 {
            Some(true)
        } else if bytes[0] == 0 {
            Some(false)
        } else {
            None
        },
{
    if bytes[1] != 0 || bytes[2] != 0 || bytes[3] != 0 {
        None
    } else if bytes[0] == 1 {
        Some(true)
    } else if bytes[0] == 0 {
        Some(false)
    } else {
        None
    }
}

/// Whether the taskbar counts as light: it does only if the registry says
/// so.
pub fn check_if_light_taskbar(registry: Option<[u8; 4]>) -> (r: bool)
    ensures
        r == match registry {
            Some(bytes) => bytes[0] == 1 && bytes[1] == 0 && bytes[2] == 0 && bytes[3] == 0,
            None => false,
        },
{
    match registry {
        Some(bytes) => match light_taskbar_from_registry(bytes) {
            Some(light) => light,
            None => false,
        },
        None => false,
    }
}

/// What to do about something that happened to the tray icon.
#[derive(Clone, Copy, PartialEq, Eq, Structural, Debug)]
pub enum TrayAction {
    Nothing,
    LeftClick,
    MiddleClick,
    /// Open the context menu at this point.
    ShowMenu(i32, i32),
}

/// Two choices of the tray icon with the keyboard that are less than this
/// many milliseconds apart count as one.
pub const KEY_REPEAT_MS: u64 = 100;

/// Two left clicks on the tray icon that are less than this many
/// milliseconds apart count as one.
pub const DOUBLE_CLICK_MS: u64 = 300;

/// Whether an event repeats the one before it: there was one before and it
/// is less than `within_ms` milliseconds ago.
pub fn is_repeat(since_last_ms: Option<u64>, within_ms: u64) -> (r: bool)
    ensures
        r == match since_last_ms {
            Some(ms) => ms < within_ms,
            None => false,
        },
{
    match since_last_ms {
        Some(ms) => ms < within_ms,
        None => false,
    }
}

/// What to do about the event `event` of the tray icon, which happened at
/// the point `(x, y)`. `since_last_key_ms` is the time since the tray icon
/// was last chosen with the keyboard, if it ever was.
///
/// The keyboard counts as a left click unless it repeats itself; the system
/// reports the enter key twice.
pub open spec fn spec_tray_action(event: u32, x: i16, y: i16, since_last_key_ms: Option<u64>) -> TrayAction {
    if event == NIN_KEYSELECT {
        match since_last_key_ms {
            Some(ms) => if ms < KEY_REPEAT_MS {
                TrayAction::Nothing
            } else {
                TrayAction::LeftClick
            },
            None => TrayAction::LeftClick,
        }
    } else if event == WM_MBUTTONDOWN {
        TrayAction::MiddleClick
    } else if event == WM_CONTEXTMENU {
        TrayAction::ShowMenu(x as i32, y as i32)
    } else {
        TrayAction::Nothing
    }
}

/// What to do about the event `event` of the tray icon.
pub fn tray_action(event: u32, x: i16, y: i16, since_last_key_ms: Option<u64>) -> (r: TrayAction)
    ensures
        r == spec_tray_action(event, x, y, since_last_key_ms),
{
    if event == NIN_KEYSELECT {
        if is_repeat(since_last_key_ms, KEY_REPEAT_MS) {
            TrayAction::Nothing
        } else {
            TrayAction::LeftClick
        }
    } else if event == WM_MBUTTONDOWN {
        TrayAction::MiddleClick
    } else if event == WM_CONTEXTMENU {
        TrayAction::ShowMenu(x as i32, y as i32)
    } else {
        TrayAction::Nothing
    }
}

/// The number of seconds after the program's start at which the tray icon is
/// rebuilt next, given the seconds that have passed: the taskbar may not have
/// been there yet when the program started with the system. After the last
/// of these moments there is none.
pub fn next_startup_rebuild(elapsed_secs: u64) -> (r: Option<u64>)
    ensures
        r == if elapsed_secs < 30 {
            Some(30u64)
        } else if elapsed_secs < 60 {
            Some(60u64)
        } else if elapsed_secs < 90 {
            Some(90u64)
        } else {
            None
        },
{
    if elapsed_secs < 30 {
        Some(30)
    } else if elapsed_secs < 60 {
        Some(60)
    } else if elapsed_secs < 90 {
        Some(90)
    } else {
        None
    }
}

/// The way to draw the tray icon for a choice of icon. There is none for the
/// program's own icon, which is shown as it is.
pub fn icon_for_setting(icon_type: TrayIconType, light_theme: bool) -> (r: Option<IconType>)
    ensures
        r == match icon_type {
            TrayIconType::WithBackground => Some(
                IconType::WithBackground { allow_hardcoded: true, light_theme },
            ),
            TrayIconType::WithBackgroundNoHardcoded => Some(
                IconType::WithBackground { allow_hardcoded: false, light_theme },
            ),
            TrayIconType::NoBackground => Some(IconType::NoBackground { light_theme }),
            TrayIconType::NoBackground2 => Some(IconType::NoBackgroundAlt),
            TrayIconType::AppIcon => None,
        },
{
    match icon_type {
        TrayIconType::WithBackground => Some(
            IconType::WithBackground { allow_hardcoded: true, light_theme },
        ),
        TrayIconType::WithBackgroundNoHardcoded => Some(
            IconType::WithBackground { allow_hardcoded: false, light_theme },
        ),
        TrayIconType::NoBackground => Some(IconType::NoBackground { light_theme }),
        TrayIconType::NoBackground2 => Some(IconType::NoBackgroundAlt),
        TrayIconType::AppIcon => None,
    }
}

/// The name at position `i` of what is appended to the known names when
/// desktops were created: the name that was fetched for it, or none if the
/// fetch did not get that far.
pub open spec fn fetched_name(fetched: Seq<Option<String>>, i: int) -> Option<String> {
    if 0 <= i < fetched.len() {
        fetched[i]
    } else {
        None
    }
}

/// The known names of the desktops after their number changed to `count`.
///
/// Names of desktops that are gone are dropped. For desktops that are new,
/// the names in `fetched` are taken, in their order.
pub open spec fn spec_resize_names(
    names: Seq<Option<String>>,
    count: u32,
    fetched: Seq<Option<String>>,
) -> Seq<Option<String>> {
    if names.len() >= count {
        names.take(count as int)
    } else {
        names + Seq::new((count - names.len()) as nat, |i: int| fetched_name(fetched, i))
    }
}

/// The positions of the desktops whose names have to be fetched when the
/// number of desktops changes to `count`: from the first position to the one
/// before the second. There are none if no desktop is new.
pub fn names_to_fetch(known: usize, count: u32) -> (r: Option<(u32, u32)>)
    ensures
        r == if known < count {
            Some((known as u32, count))
        } else {
            None
        },
{
    if (known as u64) < count as u64 {
        Some((known as u32, count))
    } else {
        None
    }
}

/// Brings the known names of the desktops in line with their number.
pub fn resize_names(names: &mut Vec<Option<String>>, count: u32, fetched: Vec<Option<String>>)
    ensures
        final(names)@ == spec_resize_names(old(names)@, count, fetched@),
{
    let ghost before = names@;
    if names.len() as u64 >= count as u64 {
        names.truncate(count as usize);
        proof {
            assert(names@ =~= before.take(count as int));
        }
    } else {
        let mut rest = fetched;
        let ghost mut taken: int = 0;
        proof {
            assert(names@ =~= before + Seq::new(0, |i: int| fetched_name(fetched@, i)));
        }
        while (names.len() as u64) < count as u64
            invariant
                before.len() < count,
                before.len() <= names@.len() <= count,
                taken == names@.len() - before.len(),
                names@ == before + Seq::new(taken as nat, |i: int| fetched_name(fetched@, i)),
                taken <= fetched@.len() ==> rest@ == fetched@.subrange(taken, fetched@.len() as int),
                taken > fetched@.len() ==> rest@.len() == 0,
            decreases count - names@.len(),
        {
            let name = if rest.len() > 0 {
                rest.remove(0)
            } else {
                None
            };
            proof {
                assert(name == fetched_name(fetched@, taken));
            }
            names.push(name);
            proof {
                taken = taken + 1;
                assert(names@ =~= before + Seq::new(taken as nat, |i: int| fetched_name(fetched@, i)));
                if taken <= fetched@.len() {
                    assert(rest@ =~= fetched@.subrange(taken, fetched@.len() as int));
                }
            }
        }
    }
}

/// Remembers the new name of the desktop at `index`, if the desktop is
/// known.
pub fn set_desktop_name(names: &mut Vec<Option<String>>, index: u32, new_name: String)
    ensures
        final(names)@ == if index < old(names)@.len() {
            old(names)@.update(index as int, Some(new_name))
        } else {
            old(names)@
        },
{
    if (index as u64) < names.len() as u64 {
        names[index as usize] = Some(new_name);
    }
}

/// The known name of the desktop at `index`.
pub fn get_desktop_name(names: &Vec<Option<String>>, index: u32) -> (r: Option<String>)
    ensures
        r == if index < names@.len() {
            names@[index as int]
        } else {
            None
        },
{
    if (index as u64) < names.len() as u64 {
        match &names[index as usize] {
            Some(name) => Some(name.clone()),
            None => None,
        }
    } else {
        None
    }
}


} // verus!

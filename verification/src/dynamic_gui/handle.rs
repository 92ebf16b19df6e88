//! Plain values that stand for native resources and messages.

use vstd::prelude::*;

verus! {

/// A reference to a native resource owned by a plugin.
///
/// The engine only compares handles and asks whether one refers to a window;
/// the numbers inside are whatever the toolkit uses to find the resource.
#[derive(Clone, Copy, PartialEq, Eq, Structural, Debug)]
pub enum ControlHandle {
    NoHandle,
    /// A window.
    Hwnd(isize),
    /// Parent menu, then the menu itself.
    Menu(isize, isize),
    /// Parent window, then the menu.
    PopMenu(isize, isize),
    /// Parent menu, then the item's id.
    MenuItem(isize, u32),
    /// Parent window, then the notice's id.
    Notice(isize, u32),
    /// Parent window, then the timer's id.
    Timer(isize, u32),
    /// The window that owns a tray icon.
    SystemTray(isize),
}

impl ControlHandle {
    /// `true` if the handle refers to nothing.
    pub fn blank(&self) -> (r: bool)
        ensures
            r == (*self == ControlHandle::NoHandle),
    {
        match self {
            ControlHandle::NoHandle => true,
            _ => false,
        }
    }

    /// The window behind a handle, if the handle is one of a window.
    pub open spec fn spec_hwnd(&self) -> Option<isize> {
        match *self {
            ControlHandle::Hwnd(h) => Some(h),
            _ => None,
        }
    }

    /// The window behind a handle, if the handle is one of a window.
    #[verifier::when_used_as_spec(spec_hwnd)]
    pub fn hwnd(&self) -> (r: Option<isize>)
        ensures
            r == self.spec_hwnd(),
    {
        match self {
            ControlHandle::Hwnd(h) => Some(*h),
            _ => None,
        }
    }
}

/// A native message as the toolkit hands it over before any filtering.
#[derive(Clone, Copy, PartialEq, Eq, Structural, Debug)]
pub struct RawEvent {
    pub hwnd: isize,
    pub msg: u32,
    pub w: usize,
    pub l: isize,
}

} // verus!

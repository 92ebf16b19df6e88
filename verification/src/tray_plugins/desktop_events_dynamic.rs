//! Making desktop events out of what can be asked of the system.

use vstd::prelude::*;
use crate::dynamic_gui::RawEvent;
use crate::vd::{Desktop, DesktopEvent};

verus! {

/// The message through which the system tells that the current desktop
/// changed.
pub const MESSAGE_OFFSET: u32 = 0x1400;

/// The event that explains why there are `new_count` desktops where there
/// were `previous_count`.
///
/// One desktop more means that the last one was created. One desktop less
/// means that the last one was destroyed; its windows went to the current
/// desktop, which has to be known for the event.
pub open spec fn spec_count_event(previous_count: u32, new_count: u32, current: Option<Desktop>) -> Option<
    DesktopEvent,
> {
    if new_count > previous_count {
        Some(DesktopEvent::DesktopCreated(Desktop::Index((new_count - 1) as u32)))
    } else if new_count < previous_count {
        match current {
            Some(fallback) => Some(
                DesktopEvent::DesktopDestroyed {
                    destroyed: Desktop::Index((previous_count - 1) as u32),
                    fallback,
                },
            ),
            None => None,
        }
    } else {
        None
    }
}

/// The event that explains why the number of desktops changed, if it did.
pub fn count_event(previous_count: u32, new_count: u32, current: Option<Desktop>) -> (r: Option<
    DesktopEvent,
>)
    ensures
        r == spec_count_event(previous_count, new_count, current),
{
    if new_count > previous_count {
        Some(DesktopEvent::DesktopCreated(Desktop::Index(new_count - 1)))
    } else if new_count < previous_count {
        match current {
            Some(fallback) => Some(
                DesktopEvent::DesktopDestroyed {
                    destroyed: Desktop::Index(previous_count - 1),
                    fallback,
                },
            ),
            None => None,
        }
    } else {
        None
    }
}

/// The number of desktops to remember after a look at the system: the new
/// one, unless the event for a lost desktop could not be made.
pub fn remembered_count(previous_count: u32, new_count: u32, current: Option<Desktop>) -> (r: u32)
    ensures
        r == if new_count < previous_count && current.is_none() {
            previous_count
        } else {
            new_count
        },
{
    if new_count < previous_count && current.is_none() {
        previous_count
    } else {
        new_count
    }
}

/// The event that a raw message stands for, if it comes from the window
/// `registered_at` that was registered with the system and tells of a change
/// of the current desktop. The message holds the positions of the old and
/// the new desktop in its two parameters, each cut to 32 bits.
pub fn changed_event(event: RawEvent, registered_at: Option<isize>) -> (r: Option<DesktopEvent>)
    ensures
        r == if registered_at == Some(event.hwnd) && event.msg == MESSAGE_OFFSET {
            Some(
                DesktopEvent::DesktopChanged {
                    new: Desktop::Index(event.l as u32),
                    old: Desktop::Index(event.w as u32),
                },
            )
        } else {
            None
        },
{
    let at_registered = match registered_at {
        Some(hwnd) => hwnd == event.hwnd,
        None => false,
    };
    if at_registered && event.msg == MESSAGE_OFFSET {
        Some(
            DesktopEvent::DesktopChanged {
                new: Desktop::Index(event.l as u32),
                old: Desktop::Index(event.w as u32),
            },
        )
    } else {
        None
    }
}

} // verus!

//! Plain values that name virtual desktops.

use vstd::prelude::*;

verus! {

/// A virtual desktop, named by its position or by its identifier.
#[derive(Clone, Copy, PartialEq, Eq, Structural, Debug)]
pub enum Desktop {
    /// The zero-based position of the desktop.
    Index(u32),
    /// The identifier that the system gave the desktop.
    Guid(u128),
}

impl Desktop {
    /// The position that the desktop is named by, if it is named by one.
    pub fn index(&self) -> (r: Option<u32>)
        ensures
            r == match *self {
                Desktop::Index(i) => Some(i),
                Desktop::Guid(_) => None,
            },
    {
        match self {
            Desktop::Index(i) => Some(*i),
            Desktop::Guid(_) => None,
        }
    }
}

/// Something that happened to the virtual desktops.
#[derive(Clone, PartialEq, Eq, Debug)]
pub enum DesktopEvent {
    DesktopCreated(Desktop),
    DesktopDestroyed { destroyed: Desktop, fallback: Desktop },
    DesktopChanged { new: Desktop, old: Desktop },
    DesktopNameChanged(Desktop, String),
    DesktopWallpaperChanged(Desktop, String),
    DesktopMoved { desktop: Desktop, old_index: i64, new_index: i64 },
    /// The window with this number changed.
    WindowChanged(isize),
}

/// A name of a desktop could not be read.
#[derive(Clone, Copy, PartialEq, Eq, Structural, Debug)]
pub enum NameError {
    /// The system reported that it could not tell the name.
    NotAvailable,
    /// The buffer that the system filled holds no zero that ends the name.
    DesktopNameWithoutNul,
}

/// The position of the first zero among the first `n` bytes of `buffer`, or
/// `n` if there is none.
pub open spec fn spec_first_nul(buffer: Seq<u8>, n: nat) -> nat
    decreases n,
{
    if n == 0 || n > buffer.len() {
        n
    } else {
        let before = spec_first_nul(buffer, (n - 1) as nat);
        if before < n - 1 {
            before
        } else if buffer[n - 1] == 0 {
            (n - 1) as nat
        } else {
            n
        }
    }
}

/// The bytes of a desktop's name, given the buffer that the system filled
/// and the code that it returned: the bytes before the first zero.
///
/// A code of 0 means that the system could not tell the name.
pub fn desktop_name_bytes(buffer: &Vec<u8>, code: i32) -> (r: Result<Vec<u8>, NameError>)
    ensures
        match r {
            Ok(name) => code != 0 && spec_first_nul(buffer@, buffer@.len()) < buffer@.len()
                && name@ == buffer@.take(spec_first_nul(buffer@, buffer@.len()) as int),
            Err(NameError::NotAvailable) => code == 0,
            Err(NameError::DesktopNameWithoutNul) => code != 0 && spec_first_nul(
                buffer@,
                buffer@.len(),
            ) == buffer@.len(),
        },
{
    if code == 0 {
        return Err(NameError::NotAvailable);
    }
    let mut name: Vec<u8> = Vec::new();
    let mut ix: usize = 0;
    while ix < buffer.len()
        invariant
            code != 0,
            ix <= buffer@.len(),
            spec_first_nul(buffer@, ix as nat) == ix,
            name@ == buffer@.take(ix as int),
        decreases buffer@.len() - ix,
    {
        if buffer[ix] == 0 {
            proof {
                assert(spec_first_nul(buffer@, (ix + 1) as nat) == ix);
                lemma_first_nul_found(buffer@, (ix + 1) as nat, buffer@.len());
            }
            return Ok(name);
        }
        name.push(buffer[ix]);
        proof {
            assert(name@ =~= buffer@.take(ix + 1));
        }
        ix = ix + 1;
    }
    Err(NameError::DesktopNameWithoutNul)
}

/// A zero that was found stays the first zero however far one looks.
proof fn lemma_first_nul_found(buffer: Seq<u8>, n: nat, m: nat)
    requires
        n <= m <= buffer.len(),
        spec_first_nul(buffer, n) < n,
    ensures
        spec_first_nul(buffer, m) == spec_first_nul(buffer, n),
    decreases m,
{
    if m > n {
        lemma_first_nul_found(buffer, n, (m - 1) as nat);
    }
}

/// The desktop at the zero-based position `index`. Whether such a desktop
/// exists is not looked into.
pub fn get_desktop(index: u32) -> (r: Desktop)
    ensures
        r == Desktop::Index(index),
{
    Desktop::Index(index)
}

/// The position to switch to from `current` when one desktop forward is
/// asked for: the next one, but never past the last of `count` desktops.
pub open spec fn spec_next_desktop(current: u32, count: u32) -> int {
    if current + 1 <= count - 1 {
        current + 1
    } else {
        count - 1
    }
}

/// The position to switch to from `current` when one desktop forward is
/// asked for. There is none if there is no desktop at all.
pub fn next_desktop(current: u32, count: u32) -> (r: Option<u32>)
    ensures
        count == 0 ==> r.is_none(),
        count > 0 ==> r.is_some() && r.unwrap() == spec_next_desktop(current, count),
{
    if count == 0 {
        None
    } else if current < count - 1 {
        Some(current + 1)
    } else {
        Some(count - 1)
    }
}

/// The position to switch to from `current` when one desktop back is asked
/// for: the one before, but never before the first.
pub fn previous_desktop(current: u32) -> (r: u32)
    ensures
        r == if current == 0 {
            0
        } else {
            current - 1
        },
{
    if current == 0 {
        0
    } else {
        current - 1
    }
}

} // verus!

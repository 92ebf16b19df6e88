//! What is known about an open window.

use vstd::prelude::*;
use vstd::string::*;
use crate::decimal::{spec_decimal, to_decimal};
use crate::vd::Desktop;

verus! {

/// Where a window is shown.
#[derive(Clone, Copy, PartialEq, Eq, Structural, Debug)]
pub enum VirtualDesktopInfo {
    /// The window is shown on every desktop.
    WindowPinned,
    /// Every window of the window's program is shown on every desktop.
    AppPinned,
    /// The window is on one desktop.
    AtDesktop {
        desktop: Desktop,
        /// The zero-based position of the desktop when the information was
        /// gathered.
        index: u32,
    },
}

impl VirtualDesktopInfo {
    /// Puts together what the system said about a window. A pinned program
    /// counts before a pinned window, and both before the desktop.
    pub fn from_answers(app_pinned: bool, window_pinned: bool, desktop: Desktop, index: u32) -> (r:
        Self)
        ensures
            r == if app_pinned {
                VirtualDesktopInfo::AppPinned
            } else if window_pinned {
                VirtualDesktopInfo::WindowPinned
            } else {
                VirtualDesktopInfo::AtDesktop { desktop, index }
            },
    {
        if app_pinned {
            VirtualDesktopInfo::AppPinned
        } else if window_pinned {
            VirtualDesktopInfo::WindowPinned
        } else {
            VirtualDesktopInfo::AtDesktop { desktop, index }
        }
    }

    /// The text that stands for the information: the one-based number of
    /// the desktop, or that the window or its program is pinned.
    pub open spec fn spec_label(self) -> Seq<char> {
        match self {
            VirtualDesktopInfo::WindowPinned => "Pinned Window"@,
            VirtualDesktopInfo::AppPinned => "Pinned App"@,
            VirtualDesktopInfo::AtDesktop { desktop, index } => spec_decimal((index + 1) as nat),
        }
    }

    /// The text that stands for the information.
    pub fn label(&self) -> (r: String)
        ensures
            r@ == self.spec_label(),
    {
        match self {
            VirtualDesktopInfo::WindowPinned => String::from_str("Pinned Window"),
            VirtualDesktopInfo::AppPinned => String::from_str("Pinned App"),
            VirtualDesktopInfo::AtDesktop { desktop: _, index } => to_decimal(*index as u64 + 1),
        }
    }

    /// Returns `true` if the window is pinned.
    #[must_use]
    pub fn is_window_pinned(&self) -> (r: bool)
        ensures
            r == (*self is WindowPinned),
    {
        matches!(self, VirtualDesktopInfo::WindowPinned)
    }

    /// Returns `true` if the window's program is pinned.
    #[must_use]
    pub fn is_app_pinned(&self) -> (r: bool)
        ensures
            r == (*self is AppPinned),
    {
        matches!(self, VirtualDesktopInfo::AppPinned)
    }

    /// Returns `true` if the window is on one desktop.
    #[must_use]
    pub fn is_at_desktop(&self) -> (r: bool)
        ensures
            r == (*self is AtDesktop),
    {
        matches!(self, VirtualDesktopInfo::AtDesktop { .. })
    }
}

/// What went wrong while information about a window was gathered. Each
/// variant holds the code that the system reported.
#[derive(Clone, Copy, PartialEq, Eq, Structural, Debug)]
pub enum GetAllError {
    Title(i32),
    ProcessId(i32),
    ProcessName(i32),
    VirtualDesktop(i32),
}

/// The number that the system knows a window by.
#[derive(Clone, Copy, PartialEq, Eq, Structural, Debug)]
pub struct WindowHandle(pub isize);

/// What is known about an open window.
#[derive(Clone, PartialEq, Eq, Debug)]
pub struct WindowInfo {
    pub handle: WindowHandle,
    pub title: String,
    pub process_id: u32,
    pub process_name: String,
    pub virtual_desktop: VirtualDesktopInfo,
}

/// The windows among the first `n` results about which everything could be
/// found out, in their order.
pub open spec fn successes(results: Seq<Result<WindowInfo, GetAllError>>, n: nat) -> Seq<WindowInfo>
    decreases n,
{
    if n == 0 || n > results.len() {
        Seq::empty()
    } else {
        let rest = successes(results, (n - 1) as nat);
        match results[n - 1] {
            Ok(info) => rest.push(info),
            Err(_) => rest,
        }
    }
}

impl WindowInfo {
    /// The windows about which everything could be found out, in the order
    /// of `results`. The others are left out.
    pub fn get_all(results: Vec<Result<WindowInfo, GetAllError>>) -> (r: Vec<WindowInfo>)
        ensures
            r@ == successes(results@, results@.len()),
    {
        let ghost all = results@;
        let mut rest = results;
        let mut found: Vec<WindowInfo> = Vec::new();
        let ghost mut taken: nat = 0;
        while rest.len() > 0
            invariant
                taken + rest@.len() == all.len(),
                rest@ == all.subrange(taken as int, all.len() as int),
                found@ == successes(all, taken),
            decreases rest@.len(),
        {
            let result = rest.remove(0);
            proof {
                taken = taken + 1;
                assert(rest@ =~= all.subrange(taken as int, all.len() as int));
            }
            match result {
                Ok(info) => {
                    found.push(info);
                },
                Err(_) => {},
            }
        }
        found
    }
}

/// Whether `c` separates the parts of a path.
pub open spec fn is_separator(c: char) -> bool {
    c == '\\' || c == '/'
}

/// The position right after the last separator among the first `n`
/// characters of `path`, or 0 if there is none.
pub open spec fn file_name_start(path: Seq<char>, n: nat) -> nat
    decreases n,
{
    if n == 0 || n > path.len() {
        0
    } else if is_separator(path[n - 1]) {
        n
    } else {
        file_name_start(path, (n - 1) as nat)
    }
}

/// Whether `name` ends in `.exe`.
pub open spec fn has_exe_suffix(name: Seq<char>) -> bool {
    name.len() >= 4 && name[name.len() - 4] == '.' && name[name.len() - 3] == 'e' && name[name.len()
        - 2] == 'x' && name[name.len() - 1] == 'e'
}

/// The name of a program, given the path of its executable: what follows the
/// last separator, without a trailing `.exe`.
pub open spec fn spec_process_name(path: Seq<char>) -> Seq<char> {
    let name = path.subrange(file_name_start(path, path.len()) as int, path.len() as int);
    if has_exe_suffix(name) {
        name.subrange(0, name.len() - 4)
    } else {
        name
    }
}

/// The name of a program, given the full path of its executable.
pub fn get_process_name(exe_path: &str) -> (r: String)
    ensures
        r@ == spec_process_name(exe_path@),
{
    let len = exe_path.unicode_len();
    let mut start: usize = len;
    while start > 0 && !(exe_path.get_char(start - 1) == '\\' || exe_path.get_char(start - 1) == '/')
        invariant
            start <= len,
            len == exe_path@.len(),
            file_name_start(exe_path@, len as nat) == file_name_start(exe_path@, start as nat),
        decreases start,
    {
        start = start - 1;
    }
    let mut end: usize = len;
    if len - start >= 4 && exe_path.get_char(len - 4) == '.' && exe_path.get_char(len - 3) == 'e'
        && exe_path.get_char(len - 2) == 'x' && exe_path.get_char(len - 1) == 'e' {
        end = len - 4;
    }
    let name = exe_path.substring_char(start, end);
    proof {
        let whole = exe_path@.subrange(start as int, len as int);
        if has_exe_suffix(whole) {
            assert(name@ =~= whole.subrange(0, whole.len() - 4));
        } else {
            assert(name@ =~= whole);
        }
    }
    String::from_str(name)
}

} // verus!

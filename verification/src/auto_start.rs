//! Deciding what to do about the task that starts the program with the
//! system.

use vstd::prelude::*;
use vstd::string::*;
use crate::settings::AutoStart;

verus! {

/// The task scheduler could not say whether the task exists. The code is
/// what it exited with, if it exited at all.
#[derive(Clone, Copy, PartialEq, Eq, Structural, Debug)]
pub struct TaskQueryError {
    pub exit_code: Option<i32>,
}

/// Whether the task exists, given what the query for it exited with: 0 means
/// that it does, 1 that it does not, and anything else is a failure.
pub fn is_installed(exit_code: Option<i32>) -> (r: Result<bool, TaskQueryError>)
    ensures
        r == match exit_code {
            Some(0) => Ok::<bool, TaskQueryError>(true),
            Some(1) => Ok(false),
            _ => Err(TaskQueryError { exit_code }),
        },
{
    match exit_code {
        Some(0) => Ok(true),
        Some(1) => Ok(false),
        _ => Err(TaskQueryError { exit_code }),
    }
}

/// Whether the task should exist for the chosen way to start.
pub fn should_install(auto_start: AutoStart) -> (r: bool)
    ensures
        r == (auto_start != AutoStart::Disabled),
{
    auto_start != AutoStart::Disabled
}

/// What has to be done about the task.
#[derive(Clone, Copy, PartialEq, Eq, Structural, Debug)]
pub enum InstallChange {
    Nothing,
    Install,
    Uninstall,
}

/// What has to be done so that the task exists exactly if it should.
pub fn change_install(was_installed: bool, should_install: bool) -> (r: InstallChange)
    ensures
        r == if was_installed == should_install {
            InstallChange::Nothing
        } else if should_install {
            InstallChange::Install
        } else {
            InstallChange::Uninstall
        },
{
    if was_installed == should_install {
        InstallChange::Nothing
    } else if should_install {
        InstallChange::Install
    } else {
        InstallChange::Uninstall
    }
}

/// Whether the settings changed in a way that the task has to follow.
pub fn on_settings_changed(previous: AutoStart, new: AutoStart) -> (r: bool)
    ensures
        r == (previous != new),
{
    previous != new
}

/// Whether a task of this name may be removed: a `*` in the name would be
/// taken as a wildcard and remove other tasks as well.
pub fn can_uninstall(task_name: &str) -> (r: bool)
    ensures
        r == !task_name@.contains('*'),
{
    let len = task_name.unicode_len();
    let mut ix: usize = 0;
    while ix < len
        invariant
            ix <= len,
            len == task_name@.len(),
            forall|j: int| 0 <= j < ix ==> task_name@[j] != '*',
        decreases len - ix,
    {
        if task_name.get_char(ix) == '*' {
            return false;
        }
        ix = ix + 1;
    }
    true
}

} // verus!

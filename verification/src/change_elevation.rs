//! Deciding how to start the program again with other rights.

use vstd::prelude::*;
use vstd::string::*;
use crate::decimal::{spec_decimal, to_decimal};

verus! {

/// The rights that a process runs with.
#[derive(Clone, Copy, PartialEq, Eq, Structural, Debug)]
pub enum PrivilegeLevel {
    /// An ordinary process.
    NotPrivileged,
    /// A process that was given admin rights when it was started.
    Elevated,
    /// A process of an admin on a system that does not ask.
    HighIntegrityAdmin,
}

/// What has to be done to get a process with the wanted rights.
#[derive(Clone, Copy, PartialEq, Eq, Structural, Debug)]
pub enum ElevationPlan {
    /// The rights are as wanted already.
    Nothing,
    /// Start the program again from a token of medium integrity that is made
    /// from the token of this process.
    RestartWithSaferToken,
    /// Start the program again with the token of the desktop's shell.
    RestartWithShellToken,
}

/// How the new process is started.
#[derive(Clone, Copy, PartialEq, Eq, Structural, Debug)]
pub enum SpawnMethod {
    /// Through the shell, which asks the user for admin rights.
    RunAs,
    /// Directly, with the prepared token.
    WithToken,
}

/// What has to be done so that the program runs with admin rights, if
/// `should_elevate`, or without them, given the rights `level` that it has.
pub open spec fn spec_plan(should_elevate: bool, level: PrivilegeLevel) -> ElevationPlan {
    if should_elevate {
        match level {
            PrivilegeLevel::NotPrivileged => ElevationPlan::RestartWithSaferToken,
            _ => ElevationPlan::Nothing,
        }
    } else {
        match level {
            PrivilegeLevel::NotPrivileged => ElevationPlan::Nothing,
            PrivilegeLevel::Elevated => ElevationPlan::RestartWithShellToken,
            PrivilegeLevel::HighIntegrityAdmin => ElevationPlan::RestartWithSaferToken,
        }
    }
}

/// What has to be done so that the program runs with admin rights, if
/// `should_elevate`, or without them.
pub fn plan_elevation(should_elevate: bool, level: PrivilegeLevel) -> (r: ElevationPlan)
    ensures
        r == spec_plan(should_elevate, level),
{
    if should_elevate {
        match level {
            PrivilegeLevel::NotPrivileged => ElevationPlan::RestartWithSaferToken,
            _ => ElevationPlan::Nothing,
        }
    } else {
        match level {
            PrivilegeLevel::NotPrivileged => ElevationPlan::Nothing,
            PrivilegeLevel::Elevated => ElevationPlan::RestartWithShellToken,
            PrivilegeLevel::HighIntegrityAdmin => ElevationPlan::RestartWithSaferToken,
        }
    }
}

/// How the new process is started: through the shell to gain rights,
/// directly to lose them.
pub fn spawn_method(should_elevate: bool) -> (r: SpawnMethod)
    ensures
        r == if should_elevate {
            SpawnMethod::RunAs
        } else {
            SpawnMethod::WithToken
        },
{
    if should_elevate {
        SpawnMethod::RunAs
    } else {
        SpawnMethod::WithToken
    }
}

/// The protocol between the program and the copy of itself that it starts
/// with other rights. The copy is told where the program listens and says
/// there that it has started; then the program exits.
#[derive(Clone, Copy, PartialEq, Eq, Structural, Debug)]
pub struct AdminRestart;

/// The first argument of a copy that was started with other rights.
pub open spec fn restarted_arg() -> Seq<char> {
    "restarted"@
}

/// The words with which the copy says that it has started.
pub open spec fn restart_message() -> Seq<char> {
    "restarted-backup-manager"@
}

impl AdminRestart {
    /// The arguments for the copy: the word that marks it as a copy, and the
    /// port on which the program listens.
    pub fn get_args(&self, port: u16) -> (r: Vec<String>)
        ensures
            r@.len() == 2,
            r@[0]@ == restarted_arg(),
            r@[1]@ == spec_decimal(port as nat),
    {
        let mut args: Vec<String> = Vec::new();
        args.push(String::from_str("restarted"));
        args.push(to_decimal(port as u64));
        args
    }

    /// The words with which the copy says that it has started.
    pub fn confirm_message(&self) -> (r: &'static str)
        ensures
            r@ == restart_message(),
    {
        "restarted-backup-manager"
    }

    /// Whether this process is a copy that was started with other rights,
    /// given its first argument.
    pub fn is_restart(&self, first_arg: Option<&str>) -> (r: bool)
        ensures
            r == match first_arg {
                Some(arg) => arg@ == restarted_arg(),
                None => false,
            },
    {
        match first_arg {
            Some(arg) => same_text(arg, "restarted"),
            None => false,
        }
    }

    /// Whether `data` is what a copy sends to say that it has started.
    pub fn confirms(&self, data: &str) -> (r: bool)
        ensures
            r == (data@ == restart_message()),
    {
        same_text(data, "restarted-backup-manager")
    }
}

/// Whether two texts are the same.
pub fn same_text(a: &str, b: &str) -> (r: bool)
    ensures
        r == (a@ == b@),
{
    let len = a.unicode_len();
    if len != b.unicode_len() {
        return false;
    }
    let mut ix: usize = 0;
    while ix < len
        invariant
            ix <= len,
            len == a@.len(),
            len == b@.len(),
            forall|j: int| 0 <= j < ix ==> a@[j] == b@[j],
        decreases len - ix,
    {
        if a.get_char(ix) != b.get_char(ix) {
            return false;
        }
        ix = ix + 1;
    }
    proof {
        assert(a@ =~= b@);
    }
    true
}

} // verus!

//! Construction of the OS-level requests the supervisor hands to its host.
//!
//! A worker is identified by a logical name; its executable is expected at
//! `./resources/<name>.exe`.  Spawning goes through the command interpreter
//! (`cmd /C`) so the working directory can be switched first; termination is
//! a forceful kill by image name (`taskkill /f /im <name>.exe`), which
//! targets every process with that image, since the supervisor does not
//! retain the identifier the OS assigned at spawn time.

use vstd::prelude::*;
use vstd::string::StringExecFns;

verus! {

/// Process-creation flag that keeps the spawned child's console window
/// hidden from the user.
pub const CREATE_NO_WINDOW: u32 = 0x08000000;

/// The command line that starts the worker named `name`: enter the resource
/// directory, then run the worker's executable.
pub open spec fn spawn_command(name: Seq<char>) -> Seq<char> {
    "cd ./resources && "@ + name + ".exe"@
}

/// The command line that forcefully terminates, by image name, every
/// process running the worker's executable, discarding any complaint
/// (such as "no matching process") the kill utility prints.
pub open spec fn kill_command(name: Seq<char>) -> Seq<char> {
    "taskkill /f /im "@ + name + ".exe 2>nul"@
}

/// The message shown when the OS rejects the spawn of `name`'s executable.
pub open spec fn spawn_failure_text(name: Seq<char>) -> Seq<char> {
    "Failed to start "@ + name + ".exe"@
}

/// A spawn request for one worker, ready for the host to dispatch: the
/// worker's logical name, the interpreter command line that starts it, and
/// the creation flag that suppresses its console window.
#[derive(Debug)]
pub struct LaunchRequest {
    pub name: String,
    pub command_line: String,
    pub creation_flags: u32,
}

impl LaunchRequest {
    /// The request carries exactly the spawn command for `name`.
    pub open spec fn is_for(self, name: Seq<char>) -> bool {
        &&& self.name@ == name
        &&& self.command_line@ == spawn_command(name)
        &&& self.creation_flags == CREATE_NO_WINDOW
    }

    pub fn new(name: &str) -> (r: LaunchRequest)
        ensures
            r.is_for(name@),
    {
        LaunchRequest {
            name: name.to_owned(),
            command_line: String::from_str("cd ./resources && ").concat(name).concat(".exe"),
            creation_flags: CREATE_NO_WINDOW,
        }
    }
}

/// A termination request for one worker: the worker's logical name, the
/// kill-by-image-name command line, and the creation flag that keeps the
/// kill utility's own console window hidden.
#[derive(Debug)]
pub struct KillRequest {
    pub name: String,
    pub command_line: String,
    pub creation_flags: u32,
}

impl KillRequest {
    /// The request carries exactly the kill command for `name`.
    pub open spec fn is_for(self, name: Seq<char>) -> bool {
        &&& self.name@ == name
        &&& self.command_line@ == kill_command(name)
        &&& self.creation_flags == CREATE_NO_WINDOW
    }

    pub fn new(name: &str) -> (r: KillRequest)
        ensures
            r.is_for(name@),
    {
        KillRequest {
            name: name.to_owned(),
            command_line: String::from_str("taskkill /f /im ").concat(name).concat(".exe 2>nul"),
            creation_flags: CREATE_NO_WINDOW,
        }
    }
}

/// The human-readable failure message for a spawn the OS rejected.
pub fn spawn_failure_message(name: &str) -> (r: String)
    ensures
        r@ == spawn_failure_text(name@),
{
    String::from_str("Failed to start ").concat(name).concat(".exe")
}

} // verus!

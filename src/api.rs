//! Query, request body and response body schema of the service.

use std::time::Duration;
use vstd::prelude::*;

verus! {

/// The version of the api supported by this library.
pub const VERSION: &'static str = "2.0.0";

/// The operating system type a runner executes on.
#[derive(Debug, Clone, Copy, PartialEq, Eq, Structural)]
pub enum OsType {
    Windows,
    Unix,
}

/// The response of the information endpoint.
#[derive(Debug)]
pub struct InfoResponse {
    /// The operating system type running.
    pub os_type: OsType,
    /// Any descriptive name of the runner.
    pub computer_name: String,
    /// The version of the api supported, see [`VERSION`].
    pub api_version: String,
}

/// A request to run a command.
///
/// The arguments are handed to the program verbatim and are never
/// interpreted by a shell.
#[derive(Debug)]
pub struct RunRequest {
    /// The command as available on the path or a path to an executable.
    pub command: String,
    /// The arguments, passed one by one.
    pub arguments: Vec<String>,
    /// `true` if the captured `stdout` is returned.
    pub return_stdout: bool,
    /// `true` if the captured `stderr` is returned.
    pub return_stderr: bool,
}

/// The query of a request to run a script; the script itself is the body.
#[derive(Debug)]
pub struct RunScriptQuery {
    /// The interpreter that runs the script.
    pub interpreter: ScriptInterpreter,
    /// `true` if the captured `stdout` is returned.
    pub return_stdout: bool,
    /// `true` if the captured `stderr` is returned.
    pub return_stderr: bool,
}

/// The interpreter that a script is run with.
///
/// Not every interpreter is supported by every runner.
#[derive(Debug, Clone, Copy, PartialEq, Eq, Structural)]
pub enum ScriptInterpreter {
    Bash,
    /// Cmd.exe is outdated and powershell should be preferred.
    Cmd,
    Powershell,
}

/// The file extension of scripts for `i`, without the dot.
pub open spec fn extension_of(i: ScriptInterpreter) -> Seq<char> {
    match i {
        ScriptInterpreter::Bash => seq!['s', 'h'],
        ScriptInterpreter::Cmd => seq!['b', 'a', 't'],
        ScriptInterpreter::Powershell => seq!['p', 's', '1'],
    }
}

impl ScriptInterpreter {
    /// Returns the default file extension.
    pub fn as_extension(&self) -> (r: &'static str)
        ensures
            r@ == extension_of(*self),
    {
        match self {
            ScriptInterpreter::Bash => {
                proof {
                    reveal_strlit("sh");
                }
                "sh"
            },
            ScriptInterpreter::Cmd => {
                proof {
                    reveal_strlit("bat");
                }
                "bat"
            },
            ScriptInterpreter::Powershell => {
                proof {
                    reveal_strlit("ps1");
                }
                "ps1"
            },
        }
    }
}

/// The response of a command or script run.
#[derive(Debug)]
pub struct RunResponse {
    /// The identifier of this run.
    pub id: u64,
    /// What became of the run.
    pub status: RunStatus,
}

/// The outcome of a run.
///
/// A process that was started is [`RunStatus::Completed`], whatever its exit
/// status; one that could not be started is [`RunStatus::Failure`].
#[derive(Debug)]
pub enum RunStatus {
    /// The process ran to its end, successfully or not.
    Completed {
        /// The exit code, or `-1001` where the process ended without one.
        exit_code: i32,
        /// The wall time it took to run.
        time_taken: Duration,
        /// The raw `stdout` bytes, where they were asked for.
        stdout: Option<Vec<u8>>,
        /// The raw `stderr` bytes, where they were asked for.
        stderr: Option<Vec<u8>>,
    },
    /// The process could not even be started.
    Failure { reason: String },
}

} // verus!

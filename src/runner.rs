//! The process runner: what a process is to run, and how its outcome becomes
//! a response.
//!
//! A process is described by a plain value, a [`ProcessSpec`]; the caller
//! spawns it, waits for it and hands back what the operating system reported.

use crate::api::{InfoResponse, OsType, RunRequest, RunResponse, RunStatus, VERSION};
use std::time::Duration;
use vstd::prelude::*;

verus! {

/// The exit code reported for a process that ended without one, such as one
/// killed by a signal.
pub const NO_EXIT_CODE: i32 = -1001;

/// The configuration of a runner, fixed when it starts.
#[derive(Debug)]
pub struct RunnerConfig {
    /// The working directory of every command, where scripts are written too.
    pub workspace: String,
    /// The operating system the runner executes on.
    pub os: OsType,
    /// The bash binary; without it bash scripts are not supported.
    pub bash_path: Option<String>,
    /// The powershell binary; without it powershell scripts are not supported.
    pub powershell_path: Option<String>,
}

/// A process to run: a program, its arguments, passed verbatim and never
/// interpreted by a shell, and its working directory.
#[derive(Debug)]
pub struct ProcessSpec {
    pub program: String,
    pub arguments: Vec<String>,
    pub working_directory: String,
}

/// The content of a [`ProcessSpec`].
pub struct CommandLine {
    pub program: Seq<char>,
    pub arguments: Seq<Seq<char>>,
    pub working_directory: Seq<char>,
}

impl View for ProcessSpec {
    type V = CommandLine;

    open spec fn view(&self) -> CommandLine {
        CommandLine {
            program: self.program@,
            arguments: self.arguments@.map_values(|a: String| a@),
            working_directory: self.working_directory@,
        }
    }
}

/// What the operating system reported of a process that ran to its end.
#[derive(Debug)]
pub struct ProcessOutput {
    /// Its exit code, where it ended with one.
    pub exit_code: Option<i32>,
    /// Everything it wrote to `stdout`.
    pub stdout: Vec<u8>,
    /// Everything it wrote to `stderr`.
    pub stderr: Vec<u8>,
}

/// A command request made ready to run.
#[derive(Debug)]
pub struct CommandJob {
    /// The identifier of the run.
    pub id: u64,
    /// The process to run.
    pub spec: ProcessSpec,
    /// `true` if the captured `stdout` is returned.
    pub return_stdout: bool,
    /// `true` if the captured `stderr` is returned.
    pub return_stderr: bool,
}

/// The exit code that a response reports for `code`.
pub open spec fn reported_exit_code(code: Option<i32>) -> i32 {
    match code {
        Some(c) => c,
        None => NO_EXIT_CODE,
    }
}

/// The captured bytes `bytes` as a response holds them: only where they were
/// asked for.
pub open spec fn captured(asked: bool, bytes: Vec<u8>) -> Option<Vec<u8>> {
    if asked {
        Some(bytes)
    } else {
        None
    }
}

/// A response that tells that run `id` could not be started, for `reason`.
pub fn failure_response(id: u64, reason: String) -> (r: RunResponse)
    ensures
        r.id == id,
        r.status == (RunStatus::Failure { reason }),
{
    RunResponse { id, status: RunStatus::Failure { reason } }
}

/// The response of run `id`, from what launching and awaiting its process
/// gave: the process's output, or the reason why it could not be started.
///
/// A process that ran is `Completed` with its own exit code, or `-1001` where
/// it had none; `stdout` and `stderr` are there exactly where they were asked
/// for. A process that could not be started is a `Failure` with that reason.
pub fn process(
    id: u64,
    result: Result<ProcessOutput, String>,
    time_taken: Duration,
    return_stdout: bool,
    return_stderr: bool,
) -> (r: RunResponse)
    ensures
        r.id == id,
        match result {
            Ok(out) => r.status == (RunStatus::Completed {
                exit_code: reported_exit_code(out.exit_code),
                time_taken,
                stdout: captured(return_stdout, out.stdout),
                stderr: captured(return_stderr, out.stderr),
            }),
            Err(reason) => r.status == (RunStatus::Failure { reason }),
        },
{
    match result {
        Ok(out) => {
            let exit_code = match out.exit_code {
                Some(c) => c,
                None => NO_EXIT_CODE,
            };
            let stdout = if return_stdout {
                Some(out.stdout)
            } else {
                None
            };
            let stderr = if return_stderr {
                Some(out.stderr)
            } else {
                None
            };
            RunResponse { id, status: RunStatus::Completed { exit_code, time_taken, stdout, stderr } }
        },
        Err(reason) => failure_response(id, reason),
    }
}

/// Relies on `fastrand::u64` over the full range, which draws a number from
/// the thread's generator and never panics on a non-empty range.
#[verifier::external_body]
pub(crate) fn random_id() -> (r: u64) {
    fastrand::u64(..)
}

/// Makes a command request ready to run under a fresh random identifier: the
/// requested program with the requested arguments, as they are, in the
/// workspace.
pub fn begin_command(request: RunRequest, config: &RunnerConfig) -> (job: CommandJob)
    ensures
        job.spec.program == request.command,
        job.spec.arguments == request.arguments,
        job.spec.working_directory == config.workspace,
        job.return_stdout == request.return_stdout,
        job.return_stderr == request.return_stderr,
{
    let id = random_id();
    let spec = ProcessSpec {
        program: request.command,
        arguments: request.arguments,
        working_directory: config.workspace.clone(),
    };
    CommandJob {
        id,
        spec,
        return_stdout: request.return_stdout,
        return_stderr: request.return_stderr,
    }
}

/// The name of a runner whose host name could not be read.
pub open spec fn unknown_name() -> Seq<char> {
    "{unknown}"@
}

/// The information response of a runner on `os` whose host name is
/// `computer_name`, where it could be read.
pub fn info_response(os: OsType, computer_name: Option<String>) -> (r: InfoResponse)
    ensures
        r.os_type == os,
        r.api_version@ == VERSION@,
        r.computer_name@ == match computer_name {
            Some(n) => n@,
            None => unknown_name(),
        },
{
    let name = match computer_name {
        Some(n) => n,
        None => String::from_str("{unknown}"),
    };
    InfoResponse { os_type: os, computer_name: name, api_version: String::from_str(VERSION) }
}

} // verus!

//! The script dispatcher: where a script is written, and which process runs it.
//!
//! A script request is handled in two steps around the caller's file write.
//! [`begin_script`] draws the run's identifier and names the script file
//! `script_<id>.<extension>` in the workspace; the caller writes the body
//! there; [`after_write`] then either gives the process to spawn or the
//! response that rejects the request. The script file is never removed here:
//! that is left to retention.

use crate::api::{OsType, RunResponse, RunScriptQuery, RunStatus, ScriptInterpreter};
use crate::api::extension_of;
use crate::runner::{failure_response, CommandLine, ProcessSpec, RunnerConfig};
use vstd::prelude::*;

verus! {

/// The decimal digit `d`.
pub open spec fn digit_char(d: nat) -> char {
    if d == 0 {
        '0'
    } else if d == 1 {
        '1'
    } else if d == 2 {
        '2'
    } else if d == 3 {
        '3'
    } else if d == 4 {
        '4'
    } else if d == 5 {
        '5'
    } else if d == 6 {
        '6'
    } else if d == 7 {
        '7'
    } else if d == 8 {
        '8'
    } else {
        '9'
    }
}

/// The decimal digits of `n`, without sign or leading zeros.
pub open spec fn decimal(n: nat) -> Seq<char>
    decreases n,
{
    if n < 10 {
        seq![digit_char(n)]
    } else {
        decimal(n / 10).push(digit_char(n % 10))
    }
}

/// Relies on `u64`'s `Display`, through `to_string`: the decimal digits of
/// `n`, without sign or leading zeros.
#[verifier::external_body]
fn decimal_string(n: u64) -> (r: String)
    ensures
        r@ == decimal(n as nat),
{
    n.to_string()
}

/// The separator of path components on `os`.
pub open spec fn separator_of(os: OsType) -> Seq<char> {
    match os {
        OsType::Windows => seq!['\\'],
        OsType::Unix => seq!['/'],
    }
}

/// The name of the script file of run `id` for `interpreter`.
pub open spec fn script_name_of(id: u64, interpreter: ScriptInterpreter) -> Seq<char> {
    "script_"@ + decimal(id as nat) + "."@ + extension_of(interpreter)
}

/// The path of the script file of run `id` for `interpreter`, in `workspace`.
pub open spec fn script_path_of(
    workspace: Seq<char>,
    os: OsType,
    id: u64,
    interpreter: ScriptInterpreter,
) -> Seq<char> {
    workspace + separator_of(os) + script_name_of(id, interpreter)
}

/// The name of the script file of run `id` for `interpreter`:
/// `script_<id>.<extension>`.
pub fn script_file_name(id: u64, interpreter: ScriptInterpreter) -> (r: String)
    ensures
        r@ == script_name_of(id, interpreter),
{
    let digits = decimal_string(id);
    let mut name = String::from_str("script_");
    name.append(digits.as_str());
    name.append(".");
    name.append(interpreter.as_extension());
    name
}

/// The separator of path components on `os`.
pub fn path_separator(os: OsType) -> (r: &'static str)
    ensures
        r@ == separator_of(os),
{
    match os {
        OsType::Windows => {
            proof {
                reveal_strlit("\\");
            }
            "\\"
        },
        OsType::Unix => {
            proof {
                reveal_strlit("/");
            }
            "/"
        },
    }
}

/// A script request made ready to be written.
#[derive(Debug)]
pub struct ScriptJob {
    /// The identifier of the run.
    pub id: u64,
    /// The interpreter that runs the script.
    pub interpreter: ScriptInterpreter,
    /// Where the script is written.
    pub path: String,
    /// `true` if the captured `stdout` is returned.
    pub return_stdout: bool,
    /// `true` if the captured `stderr` is returned.
    pub return_stderr: bool,
}

/// Makes a script request ready to be written: a fresh random identifier and
/// the script's path in the workspace.
pub fn begin_script(query: &RunScriptQuery, config: &RunnerConfig) -> (job: ScriptJob)
    ensures
        job.path@ == script_path_of(config.workspace@, config.os, job.id, query.interpreter),
        job.interpreter == query.interpreter,
        job.return_stdout == query.return_stdout,
        job.return_stderr == query.return_stderr,
{
    let id = crate::runner::random_id();
    let name = script_file_name(id, query.interpreter);
    let mut path = config.workspace.clone();
    path.append(path_separator(config.os));
    path.append(name.as_str());
    ScriptJob {
        id,
        interpreter: query.interpreter,
        path,
        return_stdout: query.return_stdout,
        return_stderr: query.return_stderr,
    }
}

/// Why a script request was rejected.
#[derive(Debug, Clone, Copy, PartialEq, Eq, Structural)]
pub enum DispatchError {
    /// The script could not be written.
    ScriptNotWritten,
    /// The runner has no interpreter for the script.
    Unsupported,
}

/// What becomes of a script request once its file write was attempted.
#[derive(Debug)]
pub enum Dispatch {
    /// Spawn this process and report its outcome.
    Run(ProcessSpec),
    /// Answer with this response; nothing is spawned.
    Reject(DispatchError, RunResponse),
}

/// The process that runs the script at `path` with `interpreter`, or why the
/// runner cannot.
pub open spec fn script_command_of(
    config: RunnerConfig,
    interpreter: ScriptInterpreter,
    path: Seq<char>,
) -> Result<CommandLine, Seq<char>> {
    match interpreter {
        ScriptInterpreter::Bash => match config.bash_path {
            Some(bash) => Ok(
                CommandLine {
                    program: bash@,
                    arguments: seq!["--"@, path],
                    working_directory: config.workspace@,
                },
            ),
            None => Err("Bash not supported"@),
        },
        ScriptInterpreter::Powershell => match config.powershell_path {
            Some(powershell) => Ok(
                CommandLine {
                    program: powershell@,
                    arguments: seq!["-File"@, path],
                    working_directory: config.workspace@,
                },
            ),
            None => Err("Powershell not supported"@),
        },
        ScriptInterpreter::Cmd => match config.os {
            OsType::Windows => Ok(
                CommandLine {
                    program: path,
                    arguments: Seq::empty(),
                    working_directory: config.workspace@,
                },
            ),
            OsType::Unix => Err("Cmd not supported on unix"@),
        },
    }
}

/// The reason given when a script could not be written.
pub open spec fn write_failure_reason() -> Seq<char> {
    "Failed to write script data"@
}

fn process_with(program: String, first: &str, path: &String, config: &RunnerConfig) -> (r:
    ProcessSpec)
    ensures
        r@ == (CommandLine {
            program: program@,
            arguments: seq![first@, path@],
            working_directory: config.workspace@,
        }),
{
    let mut arguments: Vec<String> = Vec::new();
    arguments.push(String::from_str(first));
    arguments.push(path.clone());
    let r = ProcessSpec { program, arguments, working_directory: config.workspace.clone() };
    proof {
        assert(r@.arguments =~= seq![first@, path@]);
    }
    r
}

/// The process that runs the script at `path` with `interpreter`, or the
/// reason why this runner cannot: its binary is not configured, or the script
/// is a cmd script on a runner that is not on Windows.
pub fn script_command(config: &RunnerConfig, interpreter: ScriptInterpreter, path: &String) -> (r:
    Result<ProcessSpec, String>)
    ensures
        match script_command_of(*config, interpreter, path@) {
            Ok(line) => r is Ok && r->Ok_0@ == line,
            Err(reason) => r is Err && r->Err_0@ == reason,
        },
{
    match interpreter {
        ScriptInterpreter::Bash => match &config.bash_path {
            Some(bash) => Ok(process_with(bash.clone(), "--", path, config)),
            None => Err(String::from_str("Bash not supported")),
        },
        ScriptInterpreter::Powershell => match &config.powershell_path {
            Some(powershell) => Ok(process_with(powershell.clone(), "-File", path, config)),
            None => Err(String::from_str("Powershell not supported")),
        },
        ScriptInterpreter::Cmd => match config.os {
            OsType::Windows => {
                let r = ProcessSpec {
                    program: path.clone(),
                    arguments: Vec::new(),
                    working_directory: config.workspace.clone(),
                };
                proof {
                    assert(r@.arguments =~= Seq::<Seq<char>>::empty());
                }
                Ok(r)
            },
            OsType::Unix => Err(String::from_str("Cmd not supported on unix")),
        },
    }
}

/// What becomes of `job` once the write of its script was attempted;
/// `written` tells whether it succeeded.
///
/// A script that was not written is rejected with
/// [`DispatchError::ScriptNotWritten`]. A written one runs with its
/// interpreter where the runner has it, and is rejected with
/// [`DispatchError::Unsupported`] where it does not: then no process is
/// spawned. Rejections carry a `Failure` response with the reason.
pub fn after_write(job: &ScriptJob, written: bool, config: &RunnerConfig) -> (d: Dispatch)
    ensures
        !written ==> match d {
            Dispatch::Reject(e, resp) => e == DispatchError::ScriptNotWritten && resp.id == job.id
                && resp.status is Failure && resp.status->Failure_reason@ == write_failure_reason(),
            Dispatch::Run(_) => false,
        },
        written ==> match script_command_of(*config, job.interpreter, job.path@) {
            Ok(line) => match d {
                Dispatch::Run(spec) => spec@ == line,
                Dispatch::Reject(_, _) => false,
            },
            Err(reason) => match d {
                Dispatch::Reject(e, resp) => e == DispatchError::Unsupported && resp.id == job.id
                    && resp.status is Failure && resp.status->Failure_reason@ == reason,
                Dispatch::Run(_) => false,
            },
        },
{
    if !written {
        return Dispatch::Reject(
            DispatchError::ScriptNotWritten,
            failure_response(job.id, String::from_str("Failed to write script data")),
        );
    }
    match script_command(config, job.interpreter, &job.path) {
        Ok(spec) => Dispatch::Run(spec),
        Err(reason) => Dispatch::Reject(DispatchError::Unsupported, failure_response(job.id, reason)),
    }
}

/// A script that runs, runs from the file it was written to, in the
/// workspace: the path is the interpreter's last argument, or, for cmd, the
/// program itself.
pub proof fn lemma_runs_written_script(
    config: RunnerConfig,
    interpreter: ScriptInterpreter,
    path: Seq<char>,
)
    requires
        script_command_of(config, interpreter, path) is Ok,
    ensures
        script_command_of(config, interpreter, path)->Ok_0.working_directory == config.workspace@,
        interpreter == ScriptInterpreter::Cmd ==> script_command_of(
            config,
            interpreter,
            path,
        )->Ok_0.program == path && script_command_of(config, interpreter, path)->Ok_0.arguments.len()
            == 0,
        interpreter != ScriptInterpreter::Cmd ==> script_command_of(
            config,
            interpreter,
            path,
        )->Ok_0.arguments.len() == 2 && script_command_of(config, interpreter, path)->Ok_0.arguments[1]
            == path,
{
}

} // verus!

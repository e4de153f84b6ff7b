//! A remote command and script execution service, as a verified library.
//!
//! The library holds the decisions of the service: the request and response
//! schema, how an operating-system process outcome becomes a response, how a
//! script request is turned into a process specification, and the retention
//! policy that keeps the shared working directory bounded in age and size.
//! Spawning processes, touching the file system and serving HTTP are left to
//! the caller, which hands the results back as plain values.

pub mod api;
pub mod retention;
pub mod runner;
pub mod script;
pub mod units;
pub mod walk;

pub use api::{
    InfoResponse, OsType, RunRequest, RunResponse, RunScriptQuery, RunStatus, ScriptInterpreter,
    VERSION,
};
pub use retention::{is_expired, newest_first, RetentionPolicy, SizeBudget};
pub use runner::{
    begin_command, failure_response, info_response, process, CommandJob, ProcessOutput,
    ProcessSpec, RunnerConfig, NO_EXIT_CODE,
};
pub use script::{
    after_write, begin_script, path_separator, script_command, script_file_name, Dispatch,
    DispatchError, ScriptJob,
};
pub use units::{parse_duration, parse_size, parse_suffixed_num, SuffixedNumber, UnitError};
pub use walk::{Probe, SizeWalk};

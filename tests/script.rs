use rusty_runner::{
    after_write, begin_script, path_separator, script_command, script_file_name, Dispatch,
    DispatchError, OsType, RunScriptQuery, RunStatus, RunnerConfig, ScriptInterpreter, ScriptJob,
};

fn script_config(os: OsType, bash: Option<&str>, powershell: Option<&str>) -> RunnerConfig {
    RunnerConfig {
        workspace: String::from(if os == OsType::Unix { "/tmp/rusty-runner" } else { r"C:\tmp" }),
        os,
        bash_path: bash.map(String::from),
        powershell_path: powershell.map(String::from),
    }
}

fn job(interpreter: ScriptInterpreter, path: &str) -> ScriptJob {
    ScriptJob {
        id: 11,
        interpreter,
        path: String::from(path),
        return_stdout: true,
        return_stderr: false,
    }
}

fn rejection(d: Dispatch) -> (DispatchError, u64, String) {
    match d {
        Dispatch::Reject(e, resp) => match resp.status {
            RunStatus::Failure { reason } => (e, resp.id, reason),
            RunStatus::Completed { .. } => panic!("a rejection is a failure"),
        },
        Dispatch::Run(_) => panic!("expected a rejection"),
    }
}

#[test]
fn script_names() {
    assert_eq!(script_file_name(42, ScriptInterpreter::Bash), "script_42.sh");
    assert_eq!(script_file_name(0, ScriptInterpreter::Cmd), "script_0.bat");
    assert_eq!(
        script_file_name(u64::MAX, ScriptInterpreter::Powershell),
        "script_18446744073709551615.ps1"
    );
}

#[test]
fn separators() {
    assert_eq!(path_separator(OsType::Unix), "/");
    assert_eq!(path_separator(OsType::Windows), "\\");
}

#[test]
fn script_path_in_workspace() {
    let query = RunScriptQuery {
        interpreter: ScriptInterpreter::Bash,
        return_stdout: true,
        return_stderr: true,
    };
    let job = begin_script(&query, &script_config(OsType::Unix, Some("bash"), None));
    assert_eq!(job.path, format!("/tmp/rusty-runner/script_{}.sh", job.id));
    assert_eq!(job.interpreter, ScriptInterpreter::Bash);
    assert!(job.return_stdout && job.return_stderr);
    let job = begin_script(&query, &script_config(OsType::Windows, None, None));
    assert_eq!(job.path, format!("C:\\tmp\\script_{}.sh", job.id));
}

#[test]
fn bash_runs_script_after_separator() {
    let c = script_config(OsType::Unix, Some("/bin/bash"), None);
    match after_write(&job(ScriptInterpreter::Bash, "/tmp/rusty-runner/script_11.sh"), true, &c) {
        Dispatch::Run(spec) => {
            assert_eq!(spec.program, "/bin/bash");
            assert_eq!(spec.arguments, vec!["--", "/tmp/rusty-runner/script_11.sh"]);
            assert_eq!(spec.working_directory, "/tmp/rusty-runner");
        }
        Dispatch::Reject(..) => panic!("bash is configured"),
    }
}

#[test]
fn powershell_runs_file() {
    let c = script_config(OsType::Unix, None, Some("pwsh"));
    match after_write(&job(ScriptInterpreter::Powershell, "/w/script_11.ps1"), true, &c) {
        Dispatch::Run(spec) => {
            assert_eq!(spec.program, "pwsh");
            assert_eq!(spec.arguments, vec!["-File", "/w/script_11.ps1"]);
        }
        Dispatch::Reject(..) => panic!("powershell is configured"),
    }
}

#[test]
fn cmd_runs_script_itself_on_windows() {
    let c = script_config(OsType::Windows, None, None);
    match script_command(&c, ScriptInterpreter::Cmd, &String::from(r"C:\tmp\script_1.bat")) {
        Ok(spec) => {
            assert_eq!(spec.program, r"C:\tmp\script_1.bat");
            assert!(spec.arguments.is_empty());
            assert_eq!(spec.working_directory, r"C:\tmp");
        }
        Err(reason) => panic!("cmd is native on windows: {reason}"),
    }
}

#[test]
fn cmd_rejected_on_unix() {
    let c = script_config(OsType::Unix, Some("bash"), Some("pwsh"));
    let (e, id, reason) = rejection(after_write(&job(ScriptInterpreter::Cmd, "/w/s.bat"), true, &c));
    assert_eq!(e, DispatchError::Unsupported);
    assert_eq!(id, 11);
    assert_eq!(reason, "Cmd not supported on unix");
}

#[test]
fn unconfigured_interpreters_are_rejected() {
    let c = script_config(OsType::Unix, None, None);
    let (e, _, reason) = rejection(after_write(&job(ScriptInterpreter::Bash, "/w/s.sh"), true, &c));
    assert_eq!(e, DispatchError::Unsupported);
    assert_eq!(reason, "Bash not supported");
    let (e, _, reason) =
        rejection(after_write(&job(ScriptInterpreter::Powershell, "/w/s.ps1"), true, &c));
    assert_eq!(e, DispatchError::Unsupported);
    assert_eq!(reason, "Powershell not supported");
}

#[test]
fn unwritten_script_is_rejected() {
    let c = script_config(OsType::Unix, Some("bash"), None);
    let (e, id, reason) = rejection(after_write(&job(ScriptInterpreter::Bash, "/w/s.sh"), false, &c));
    assert_eq!(e, DispatchError::ScriptNotWritten);
    assert_eq!(id, 11);
    assert_eq!(reason, "Failed to write script data");
}

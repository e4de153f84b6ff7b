use rusty_runner::{
    begin_command, failure_response, info_response, process, OsType, ProcessOutput, RunRequest,
    RunStatus, RunnerConfig, ScriptInterpreter, NO_EXIT_CODE, VERSION,
};
use std::time::Duration;

fn config() -> RunnerConfig {
    RunnerConfig {
        workspace: String::from("/tmp/rusty-runner"),
        os: OsType::Unix,
        bash_path: Some(String::from("bash")),
        powershell_path: None,
    }
}

fn output(code: Option<i32>) -> ProcessOutput {
    ProcessOutput { exit_code: code, stdout: b"out\n".to_vec(), stderr: b"err\n".to_vec() }
}

#[test]
fn extensions_per_interpreter() {
    assert_eq!(ScriptInterpreter::Bash.as_extension(), "sh");
    assert_eq!(ScriptInterpreter::Cmd.as_extension(), "bat");
    assert_eq!(ScriptInterpreter::Powershell.as_extension(), "ps1");
}

#[test]
fn completed_keeps_real_exit_code() {
    let r = process(7, Ok(output(Some(3))), Duration::from_millis(12), true, true);
    assert_eq!(r.id, 7);
    match r.status {
        RunStatus::Completed { exit_code, time_taken, stdout, stderr } => {
            assert_eq!(exit_code, 3);
            assert_eq!(time_taken, Duration::from_millis(12));
            assert_eq!(stdout, Some(b"out\n".to_vec()));
            assert_eq!(stderr, Some(b"err\n".to_vec()));
        }
        RunStatus::Failure { .. } => panic!("expected a completed run"),
    }
}

#[test]
fn completed_without_code_reports_sentinel() {
    let r = process(1, Ok(output(None)), Duration::ZERO, false, false);
    match r.status {
        RunStatus::Completed { exit_code, .. } => {
            assert_eq!(exit_code, -1001);
            assert_eq!(exit_code, NO_EXIT_CODE);
        }
        RunStatus::Failure { .. } => panic!("expected a completed run"),
    }
}

#[test]
fn capture_flags_are_respected() {
    let r = process(2, Ok(output(Some(0))), Duration::ZERO, false, true);
    match r.status {
        RunStatus::Completed { stdout, stderr, .. } => {
            assert_eq!(stdout, None);
            assert_eq!(stderr, Some(b"err\n".to_vec()));
        }
        RunStatus::Failure { .. } => panic!("expected a completed run"),
    }
    let r = process(2, Ok(output(Some(0))), Duration::ZERO, true, false);
    match r.status {
        RunStatus::Completed { stdout, stderr, .. } => {
            assert_eq!(stdout, Some(b"out\n".to_vec()));
            assert_eq!(stderr, None);
        }
        RunStatus::Failure { .. } => panic!("expected a completed run"),
    }
}

#[test]
fn launch_failure_is_failure() {
    let reason = String::from("No such file or directory (os error 2)");
    let r = process(9, Err(reason.clone()), Duration::ZERO, true, true);
    assert_eq!(r.id, 9);
    match r.status {
        RunStatus::Failure { reason: got } => assert_eq!(got, reason),
        RunStatus::Completed { .. } => panic!("expected a failure"),
    }
}

#[test]
fn failure_response_carries_reason() {
    let r = failure_response(5, String::from("Not supported"));
    assert_eq!(r.id, 5);
    match r.status {
        RunStatus::Failure { reason } => assert_eq!(reason, "Not supported"),
        RunStatus::Completed { .. } => panic!("expected a failure"),
    }
}

#[test]
fn command_arguments_are_verbatim() {
    let request = RunRequest {
        command: String::from("echo"),
        arguments: vec![String::from("Hello"), String::from("$HOME; ls"), String::new()],
        return_stdout: true,
        return_stderr: false,
    };
    let job = begin_command(request, &config());
    assert_eq!(job.spec.program, "echo");
    assert_eq!(job.spec.arguments, vec!["Hello", "$HOME; ls", ""]);
    assert_eq!(job.spec.working_directory, "/tmp/rusty-runner");
    assert!(job.return_stdout);
    assert!(!job.return_stderr);
}

#[test]
fn info_has_version_and_name() {
    let info = info_response(OsType::Unix, Some(String::from("GLaDOS")));
    assert_eq!(info.computer_name, "GLaDOS");
    assert_eq!(info.api_version, VERSION);
    assert_eq!(info.os_type, OsType::Unix);
    let info = info_response(OsType::Windows, None);
    assert_eq!(info.computer_name, "{unknown}");
    assert_eq!(info.os_type, OsType::Windows);
}

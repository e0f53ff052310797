use ninja::executor::{
    checked_memory_limit, effective_timeout, exec_environment, execution_result,
    list_files_outcome, list_files_request, parse_memory_limit, read_file_outcome,
    read_file_request, shell_escape, workspace_bind, workspace_container_settings, write_file_outcome, write_file_request,
    ExecutionRequest, ExecutionResult,
};
use ninja::executor_simple::{
    attach_error, env_assignments, exit_code_of, sandbox_container_settings, make_parent_dir_command, timeout_error,
    write_file_command, write_file_outcome as simple_write_outcome,
};
use ninja::config::DockerConfig;
use ninja::error::NinjaError;

fn result(success: bool, stdout: &str, stderr: &str) -> ExecutionResult {
    ExecutionResult {
        stdout: stdout.to_string(),
        stderr: stderr.to_string(),
        exit_code: if success { 0 } else { 1 },
        success,
        execution_time_ms: 5,
        timed_out: false,
    }
}

#[test]
fn memory_limits_in_units() {
    assert_eq!(parse_memory_limit("1g"), 1073741824);
    assert_eq!(parse_memory_limit("2G"), 2147483648);
    assert_eq!(parse_memory_limit("512m"), 536870912);
    assert_eq!(parse_memory_limit("64k"), 65536);
    assert_eq!(parse_memory_limit("1000"), 1000);
}

#[test]
fn memory_limits_fall_back_on_unreadable_numbers() {
    assert_eq!(parse_memory_limit("xg"), 1073741824);
    assert_eq!(parse_memory_limit("xm"), 536870912);
    assert_eq!(parse_memory_limit("xk"), 524288);
    assert_eq!(parse_memory_limit("abc"), 1073741824);
}

#[test]
fn checked_memory_limit_refuses_overflow() {
    assert_eq!(checked_memory_limit("1g"), Some(1073741824));
    assert_eq!(checked_memory_limit("9223372036854775807g"), None);
}

#[test]
fn timeouts_default_when_missing() {
    let mut req = ExecutionRequest {
        working_directory: "/workspace".to_string(),
        command: "ls".to_string(),
        environment: Vec::new(),
        timeout_seconds: None,
    };
    assert_eq!(effective_timeout(&req, 300), 300);
    req.timeout_seconds = Some(10);
    assert_eq!(effective_timeout(&req, 300), 10);
}

#[test]
fn environment_as_assignments() {
    assert_eq!(exec_environment(&Vec::new()), None);
    let env = vec![("A".to_string(), "1".to_string()), ("B".to_string(), "x=y".to_string())];
    assert_eq!(exec_environment(&env), Some(vec!["A=1".to_string(), "B=x=y".to_string()]));
    assert_eq!(env_assignments(&env), vec!["A=1".to_string(), "B=x=y".to_string()]);
}

#[test]
fn execution_results_from_engine_reports() {
    let r = execution_result("out".to_string(), "err".to_string(), Some(0), false, 12);
    assert!(r.success);
    assert_eq!(r.exit_code, 0);
    let r = execution_result("".to_string(), "".to_string(), None, false, 1);
    assert_eq!(r.exit_code, -1);
    assert!(!r.success);
    let r = execution_result("".to_string(), "".to_string(), Some(0), true, 1);
    assert!(!r.success);
    assert!(r.timed_out);
}

#[test]
fn read_file_command_and_outcome() {
    let req = read_file_request("src/a.py");
    assert_eq!(req.command, "cat 'src/a.py'");
    assert_eq!(req.working_directory, "/workspace");
    assert_eq!(req.timeout_seconds, Some(30));
    assert_eq!(read_file_outcome("a", result(true, "body", "")).unwrap(), "body");
    match read_file_outcome("a", result(false, "", "no such file")) {
        Err(NinjaError::Execution(m)) => assert_eq!(m, "Failed to read file a: no such file"),
        other => panic!("unexpected {:?}", other),
    }
}

#[test]
fn write_file_command_escapes_quotes() {
    assert_eq!(shell_escape("it's"), "it'\"'\"'s");
    let req = write_file_request("d/f.py", "print('hi')");
    assert_eq!(
        req.command,
        "mkdir -p $(dirname 'd/f.py') && printf '%s' 'print('\"'\"'hi'\"'\"')' > 'd/f.py'"
    );
    assert!(write_file_outcome("f", &result(true, "", "")).is_ok());
    match write_file_outcome("f", &result(false, "", "denied")) {
        Err(NinjaError::Execution(m)) => assert_eq!(m, "Failed to write file f: denied"),
        other => panic!("unexpected {:?}", other),
    }
}

#[test]
fn list_files_commands_and_listing() {
    assert_eq!(list_files_request("/w", true).command, "find '/w' -type f 2>/dev/null || echo");
    assert_eq!(list_files_request("/w", false).command, "ls -1 '/w' 2>/dev/null || echo");
    assert_eq!(
        list_files_outcome(&result(true, "a.py\n\nb/c.py\n", "")),
        vec!["a.py".to_string(), "b/c.py".to_string()]
    );
    assert!(list_files_outcome(&result(false, "a.py\n", "")).is_empty());
}

#[test]
fn workspace_is_bound_at_workspace_dir() {
    assert_eq!(workspace_bind("/tmp/ws"), "/tmp/ws:/workspace");
}

#[test]
fn simple_executor_commands() {
    assert_eq!(make_parent_dir_command("/app/x.py"), "mkdir -p $(dirname '/app/x.py')");
    assert_eq!(write_file_command("/app/x.py", "a=1"), "cat > '/app/x.py' << 'EOF'\na=1\nEOF");
    assert!(simple_write_outcome("p", 0, "").is_ok());
    match simple_write_outcome("p", 2, "bad") {
        Err(NinjaError::Execution(m)) => assert_eq!(m, "Failed to write file p: bad"),
        other => panic!("unexpected {:?}", other),
    }
    match timeout_error(30) {
        NinjaError::Execution(m) => assert_eq!(m, "Command timed out after 30 seconds"),
        other => panic!("unexpected {:?}", other),
    }
    match attach_error() {
        NinjaError::Execution(m) => assert_eq!(m, "Failed to attach to exec"),
        other => panic!("unexpected {:?}", other),
    }
    assert_eq!(exit_code_of(Some(3)), 3);
    assert_eq!(exit_code_of(None), -1);
}

#[test]
fn workspace_container_settings_from_config() {
    let s = workspace_container_settings(&DockerConfig::default(), "/tmp/ws").unwrap();
    assert_eq!(s.image, "python:3.12-slim");
    assert_eq!(s.working_dir, "/workspace");
    assert_eq!(s.cmd, vec!["/bin/bash"]);
    assert!(s.tty);
    assert_eq!(s.memory_bytes, 1073741824);
    assert_eq!(s.cpu_period, 100000);
    assert_eq!(s.binds, vec!["/tmp/ws:/workspace"]);
    assert_eq!(s.network_mode, "none");
    assert_eq!(s.pids_limit, 256);
    let mut big = DockerConfig::default();
    big.memory_limit = "9223372036854775807g".to_string();
    assert!(workspace_container_settings(&big, "/w").is_none());
}

#[test]
fn sandbox_container_settings_from_request() {
    let req = ninja::executor_simple::ExecutionRequest {
        command: "python x.py".to_string(),
        working_directory: "/app".to_string(),
        files: Vec::new(),
        environment: vec![("PYTHONPATH".to_string(), "/app".to_string())],
        timeout_seconds: 30,
    };
    let s = sandbox_container_settings(&DockerConfig::default(), &req);
    assert_eq!(s.image, "python:3.12-slim");
    assert_eq!(s.working_dir, "/app");
    assert_eq!(s.cmd, vec!["sleep", "300"]);
    assert_eq!(s.env, vec!["PYTHONPATH=/app"]);
    assert_eq!(s.memory_bytes, 1073741824);
    assert_eq!(s.nano_cpus, 1000000000);
    assert!(s.auto_remove);
}

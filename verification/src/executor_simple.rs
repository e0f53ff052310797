//! Requests and results of the one-container-per-command sandbox, and the
//! shell commands it sends into a container.

use vstd::prelude::*;
use vstd::string::StringExecFns;
use crate::config::DockerConfig;
use crate::error::NinjaError;
use crate::text::{decimal, u64_to_decimal, append_decimal, concat, texts_of};

verus! {

/// A command to run in a fresh container, with files to write first.
/// The environment is a list of name/value pairs.
#[derive(Debug)]
pub struct ExecutionRequest {
    pub command: String,
    pub working_directory: String,
    pub files: Vec<FileOperation>,
    pub environment: Vec<(String, String)>,
    pub timeout_seconds: u64,
}

/// A file to write into the container.
#[derive(Debug)]
pub struct FileOperation {
    pub path: String,
    pub content: String,
    pub operation_type: FileOperationType,
}

#[derive(Clone, Copy, Debug, PartialEq, Eq, Structural)]
pub enum FileOperationType {
    Create,
    Write,
    Append,
    Delete,
}

/// What a command did.
#[derive(Debug)]
pub struct ExecutionResult {
    pub exit_code: i32,
    pub stdout: String,
    pub stderr: String,
    pub duration_ms: u64,
    pub container_id: Option<String>,
}

/// `name=value` for each pair of an environment, in order.
pub open spec fn env_assignments_spec(env: Seq<(String, String)>) -> Seq<Seq<char>> {
    env.map_values(|p: (String, String)| p.0@ + "="@ + p.1@)
}

/// The container environment: `name=value` for each pair, in order.
pub fn env_assignments(env: &Vec<(String, String)>) -> (r: Vec<String>)
    ensures
        r@.len() == env@.len(),
        forall|i: int| 0 <= i < r@.len() ==> (#[trigger] r@[i])@ == env_assignments_spec(env@)[i],
{
    let mut r: Vec<String> = Vec::new();
    let mut i: usize = 0;
    while i < env.len()
        invariant
            i <= env@.len(),
            r@.len() == i,
            forall|k: int| 0 <= k < i ==> (#[trigger] r@[k])@ == env_assignments_spec(env@)[k],
        decreases env@.len() - i,
    {
        let mut s = String::from_str(env[i].0.as_str());
        s.append("=");
        s.append(env[i].1.as_str());
        r.push(s);
        i = i + 1;
    }
    r
}

/// The shell command that creates the directory of `path`.
pub fn make_parent_dir_command(path: &str) -> (c: String)
    ensures
        c@ == "mkdir -p $(dirname '"@ + path@ + "')"@,
{
    let mut c = String::from_str("mkdir -p $(dirname '");
    c.append(path);
    c.append("')");
    c
}

/// The shell command that writes `content` to `path` through a here
/// document.
pub fn write_file_command(path: &str, content: &str) -> (c: String)
    ensures
        c@ == "cat > '"@ + path@ + "' << 'EOF'\n"@ + content@ + "\nEOF"@,
{
    let mut c = String::from_str("cat > '");
    c.append(path);
    c.append("' << 'EOF'\n");
    c.append(content);
    c.append("\nEOF");
    c
}

/// The result of writing a file: success when the write command exited
/// with 0, else an execution error naming the file and its error output.
pub fn write_file_outcome(path: &str, exit_code: i32, stderr: &str) -> (r: Result<(), NinjaError>)
    ensures
        exit_code == 0 ==> r is Ok,
        exit_code != 0 ==> (r matches Err(NinjaError::Execution(m)) && m@ == "Failed to write file "@
            + path@ + ": "@ + stderr@),
{
    if exit_code == 0 {
        Ok(())
    } else {
        let mut m = String::from_str("Failed to write file ");
        m.append(path);
        m.append(": ");
        m.append(stderr);
        Err(NinjaError::Execution(m))
    }
}

/// The error for a command that ran past its time limit.
pub fn timeout_error(timeout_seconds: u64) -> (e: NinjaError)
    ensures
        e matches NinjaError::Execution(m) && m@ == "Command timed out after "@ + decimal(
            timeout_seconds as nat,
        ) + " seconds"@,
{
    let mut m = String::from_str("Command timed out after ");
    append_decimal(&mut m, timeout_seconds);
    m.append(" seconds");
    NinjaError::Execution(m)
}

/// The error when the command's output could not be attached to.
pub fn attach_error() -> (e: NinjaError)
    ensures
        e matches NinjaError::Execution(m) && m@ == "Failed to attach to exec"@,
{
    NinjaError::Execution(String::from_str("Failed to attach to exec"))
}

/// The exit code of a finished command: the one the engine reports
/// (truncated to `i32`), or -1 when it reports none.
pub fn exit_code_of(reported: Option<i64>) -> (code: i32)
    ensures
        code == (match reported {
            Some(c) => c,
            None => -1i64,
        }) as i32,
{
    let c: i64 = match reported {
        Some(c) => c,
        None => -1,
    };
    c as i32
}

/// How the fresh container of one request is created.
#[derive(Debug)]
pub struct SandboxContainerSettings {
    pub image: String,
    pub working_dir: String,
    pub cmd: Vec<String>,
    pub env: Vec<String>,
    pub memory_bytes: i64,
    pub nano_cpus: i64,
    pub auto_remove: bool,
}

/// The settings of the container of a request: the configured image, kept
/// alive by `sleep 300` in the request's working directory, with the
/// request's environment, one gigabyte of memory and one CPU, removed once
/// stopped.
pub fn sandbox_container_settings(config: &DockerConfig, request: &ExecutionRequest) -> (s:
    SandboxContainerSettings)
    ensures
        s.image == config.base_image,
        s.working_dir == request.working_directory,
        texts_of(s.cmd@) == seq!["sleep"@, "300"@],
        texts_of(s.env@) == env_assignments_spec(request.environment@),
        s.memory_bytes == 1073741824,
        s.nano_cpus == 1000000000,
        s.auto_remove,
{
    let mut cmd: Vec<String> = Vec::new();
    cmd.push(String::from_str("sleep"));
    cmd.push(String::from_str("300"));
    assert(texts_of(cmd@) =~= seq!["sleep"@, "300"@]);
    let env = env_assignments(&request.environment);
    assert(texts_of(env@) =~= env_assignments_spec(request.environment@));
    SandboxContainerSettings {
        image: config.base_image.clone(),
        working_dir: request.working_directory.clone(),
        cmd,
        env,
        memory_bytes: 1073741824,
        nano_cpus: 1000000000,
        auto_remove: true,
    }
}

} // verus!

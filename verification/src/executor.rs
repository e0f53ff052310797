//! Requests, results and shell commands of the long-lived workspace
//! container: reading, writing and listing files inside it, and the
//! resource limits it is created with.

use vstd::prelude::*;
use vstd::string::StringExecFns;
use crate::config::DockerConfig;
use crate::error::NinjaError;
use crate::text::{
    lowercase, to_lowercase, strip_suffix, strip_suffix_spec, parse_i64, parse_i64_spec, replace,
    replace_all, lines, lines_spec, texts_of, concat,
};

verus! {

/// A command to run in the workspace container. The environment is a list
/// of name/value pairs; without a timeout the configured one applies.
#[derive(Debug)]
pub struct ExecutionRequest {
    pub working_directory: String,
    pub command: String,
    pub environment: Vec<(String, String)>,
    pub timeout_seconds: Option<u64>,
}

/// What a command did. It succeeded when it exited with 0 in time.
#[derive(Debug)]
pub struct ExecutionResult {
    pub stdout: String,
    pub stderr: String,
    pub exit_code: i64,
    pub success: bool,
    pub execution_time_ms: u64,
    pub timed_out: bool,
}

/// A file to set up in the workspace.
#[derive(Debug)]
pub struct FileOperation {
    pub path: String,
    pub content: String,
    pub operation_type: FileOperationType,
}

#[derive(Clone, Copy, Debug, PartialEq, Eq, Structural)]
pub enum FileOperationType {
    Read,
    Write,
    Create,
    Delete,
}

/// The time limit of a request: its own, or else `default_seconds`.
pub fn effective_timeout(request: &ExecutionRequest, default_seconds: u64) -> (t: u64)
    ensures
        t == match request.timeout_seconds {
            Some(s) => s,
            None => default_seconds,
        },
{
    match request.timeout_seconds {
        Some(s) => s,
        None => default_seconds,
    }
}

/// The environment handed to the engine: none for an empty list, else
/// `name=value` for each pair, in order.
pub fn exec_environment(env: &Vec<(String, String)>) -> (r: Option<Vec<String>>)
    ensures
        env@.len() == 0 ==> r is None,
        env@.len() > 0 ==> (r matches Some(v) && v@.len() == env@.len() && forall|i: int|
            0 <= i < v@.len() ==> (#[trigger] v@[i])@ == env@[i].0@ + "="@ + env@[i].1@),
{
    if env.len() == 0 {
        return None;
    }
    let mut r: Vec<String> = Vec::new();
    let mut i: usize = 0;
    while i < env.len()
        invariant
            i <= env@.len(),
            r@.len() == i,
            forall|k: int| 0 <= k < i ==> (#[trigger] r@[k])@ == env@[k].0@ + "="@ + env@[k].1@,
        decreases env@.len() - i,
    {
        let mut s = String::from_str(env[i].0.as_str());
        s.append("=");
        s.append(env[i].1.as_str());
        r.push(s);
        i = i + 1;
    }
    Some(r)
}

/// The result of a finished command: exit code -1 when the engine reports
/// none, success when it exited with 0 and did not time out.
pub fn execution_result(
    stdout: String,
    stderr: String,
    reported_exit_code: Option<i64>,
    timed_out: bool,
    execution_time_ms: u64,
) -> (r: ExecutionResult)
    ensures
        r.stdout == stdout,
        r.stderr == stderr,
        r.exit_code == match reported_exit_code {
            Some(c) => c,
            None => -1i64,
        },
        r.success == (r.exit_code == 0 && !timed_out),
        r.timed_out == timed_out,
        r.execution_time_ms == execution_time_ms,
{
    let exit_code: i64 = match reported_exit_code {
        Some(c) => c,
        None => -1,
    };
    ExecutionResult {
        stdout,
        stderr,
        exit_code,
        success: exit_code == 0 && !timed_out,
        execution_time_ms,
        timed_out,
    }
}

/// A request to run `command` in `/workspace` with no environment and a
/// 30 second limit.
fn workspace_request(command: String) -> (r: ExecutionRequest)
    ensures
        r.working_directory@ == "/workspace"@,
        r.command == command,
        r.environment@.len() == 0,
        r.timeout_seconds == Some(30u64),
{
    ExecutionRequest {
        working_directory: String::from_str("/workspace"),
        command,
        environment: Vec::new(),
        timeout_seconds: Some(30),
    }
}

/// The request that reads a file: `cat '<path>'`.
pub fn read_file_request(path: &str) -> (r: ExecutionRequest)
    ensures
        r.working_directory@ == "/workspace"@,
        r.command@ == "cat '"@ + path@ + "'"@,
        r.environment@.len() == 0,
        r.timeout_seconds == Some(30u64),
{
    let mut c = String::from_str("cat '");
    c.append(path);
    c.append("'");
    workspace_request(c)
}

/// The file's contents when the read succeeded, else an execution error
/// naming the file and the error output.
pub fn read_file_outcome(path: &str, result: ExecutionResult) -> (r: Result<String, NinjaError>)
    ensures
        result.success ==> r == Ok::<String, NinjaError>(result.stdout),
        !result.success ==> (r matches Err(NinjaError::Execution(m)) && m@ == "Failed to read file "@
            + path@ + ": "@ + result.stderr@),
{
    if result.success {
        Ok(result.stdout)
    } else {
        let mut m = String::from_str("Failed to read file ");
        m.append(path);
        m.append(": ");
        m.append(result.stderr.as_str());
        Err(NinjaError::Execution(m))
    }
}

/// `content` quoted for use between single quotes in a shell command:
/// each `'` becomes `'"'"'`.
pub fn shell_escape(content: &str) -> (r: String)
    ensures
        r@ == replace_all(content@, "'"@, "'\"'\"'"@),
{
    proof {
        reveal_strlit("'");
    }
    replace(content, "'", "'\"'\"'")
}

/// The request that writes `content` to a file, creating its directory.
pub fn write_file_request(path: &str, content: &str) -> (r: ExecutionRequest)
    ensures
        r.working_directory@ == "/workspace"@,
        r.command@ == "mkdir -p $(dirname '"@ + path@ + "') && printf '%s' '"@ + replace_all(
            content@,
            "'"@,
            "'\"'\"'"@,
        ) + "' > '"@ + path@ + "'"@,
        r.environment@.len() == 0,
        r.timeout_seconds == Some(30u64),
{
    let escaped = shell_escape(content);
    let mut c = String::from_str("mkdir -p $(dirname '");
    c.append(path);
    c.append("') && printf '%s' '");
    c.append(escaped.as_str());
    c.append("' > '");
    c.append(path);
    c.append("'");
    workspace_request(c)
}

/// Success when the write succeeded, else an execution error naming the
/// file and the error output.
pub fn write_file_outcome(path: &str, result: &ExecutionResult) -> (r: Result<(), NinjaError>)
    ensures
        result.success ==> r is Ok,
        !result.success ==> (r matches Err(NinjaError::Execution(m)) && m@ == "Failed to write file "@
            + path@ + ": "@ + result.stderr@),
{
    if result.success {
        Ok(())
    } else {
        let mut m = String::from_str("Failed to write file ");
        m.append(path);
        m.append(": ");
        m.append(result.stderr.as_str());
        Err(NinjaError::Execution(m))
    }
}

/// The request that lists the files of a directory: every file below it
/// with `find` when `recursive`, else its entries with `ls -1`; a missing
/// directory lists nothing.
pub fn list_files_request(directory: &str, recursive: bool) -> (r: ExecutionRequest)
    ensures
        r.working_directory@ == "/workspace"@,
        recursive ==> r.command@ == "find '"@ + directory@ + "' -type f 2>/dev/null || echo"@,
        !recursive ==> r.command@ == "ls -1 '"@ + directory@ + "' 2>/dev/null || echo"@,
        r.environment@.len() == 0,
        r.timeout_seconds == Some(30u64),
{
    let mut c = if recursive {
        String::from_str("find '")
    } else {
        String::from_str("ls -1 '")
    };
    c.append(directory);
    if recursive {
        c.append("' -type f 2>/dev/null || echo");
    } else {
        c.append("' 2>/dev/null || echo");
    }
    workspace_request(c)
}

/// The non-empty lines of a text, in order.
pub open spec fn non_empty_lines(s: Seq<char>) -> Seq<Seq<char>> {
    lines_spec(s).filter(|l: Seq<char>| l.len() > 0)
}

/// The files a listing found: the non-empty lines of its output when it
/// succeeded, else none.
pub fn list_files_outcome(result: &ExecutionResult) -> (files: Vec<String>)
    ensures
        result.success ==> texts_of(files@) == non_empty_lines(result.stdout@),
        !result.success ==> files@.len() == 0,
{
    if !result.success {
        return Vec::new();
    }
    let all = lines(result.stdout.as_str());
    let ghost ls = lines_spec(result.stdout@);
    let mut files: Vec<String> = Vec::new();
    let mut i: usize = 0;
    while i < all.len()
        invariant
            i <= all@.len(),
            texts_of(all@) == ls,
            texts_of(files@) == ls.take(i as int).filter(|l: Seq<char>| l.len() > 0),
        decreases all@.len() - i,
    {
        let ghost before = texts_of(files@);
        assert(ls.take(i + 1).drop_last() =~= ls.take(i as int));
        assert(ls.take(i + 1).last() == all@[i as int]@);
        reveal_with_fuel(Seq::<_>::filter, 1);
        if !all[i].as_str().is_empty() {
            files.push(all[i].clone());
        }
        i = i + 1;
        assert(texts_of(files@) =~= ls.take(i as int).filter(|l: Seq<char>| l.len() > 0));
    }
    assert(ls.take(i as int) =~= ls);
    files
}

/// The volume binding that mounts a host workspace at `/workspace`.
pub fn workspace_bind(workspace_path: &str) -> (b: String)
    ensures
        b@ == workspace_path@ + ":/workspace"@,
{
    concat(workspace_path, ":/workspace")
}

/// `parse::<i64>` on a text, or `default` when it does not parse.
pub open spec fn parse_or(s: Seq<char>, default: int) -> int {
    match parse_i64_spec(s) {
        Some(v) => v as int,
        None => default,
    }
}

/// The memory limit in bytes named by a lower-cased limit text: a number
/// with a `g`, `m` or `k` suffix counts gibibytes, mebibytes or kibibytes
/// (a suffixed text that is not a number counts 1, 512 and 512 of them); a
/// bare number counts bytes, and a text that is no number gives 1 GiB.
pub open spec fn memory_limit_spec(lower: Seq<char>) -> int {
    match strip_suffix_spec(lower, "g"@) {
        Some(n) => parse_or(n, 1) * 1073741824,
        None => match strip_suffix_spec(lower, "m"@) {
            Some(n) => parse_or(n, 512) * 1048576,
            None => match strip_suffix_spec(lower, "k"@) {
                Some(n) => parse_or(n, 512) * 1024,
                None => parse_or(lower, 1073741824),
            },
        },
    }
}

/// The memory limit named by a limit text such as `1g` or `512m`, in
/// bytes; the text is read case-insensitively.
pub fn parse_memory_limit(limit: &str) -> (bytes: i64)
    requires
        i64::MIN <= memory_limit_spec(lowercase(limit@)) <= i64::MAX,
    ensures
        bytes == memory_limit_spec(lowercase(limit@)),
{
    let lower = to_lowercase(limit);
    let l = lower.as_str();
    match strip_suffix(l, "g") {
        Some(n) => {
            let v: i64 = match parse_i64(n.as_str()) {
                Some(v) => v,
                None => 1,
            };
            v * 1073741824
        },
        None => match strip_suffix(l, "m") {
            Some(n) => {
                let v: i64 = match parse_i64(n.as_str()) {
                    Some(v) => v,
                    None => 512,
                };
                v * 1048576
            },
            None => match strip_suffix(l, "k") {
                Some(n) => {
                    let v: i64 = match parse_i64(n.as_str()) {
                        Some(v) => v,
                        None => 512,
                    };
                    v * 1024
                },
                None => match parse_i64(l) {
                    Some(v) => v,
                    None => 1073741824,
                },
            },
        },
    }
}

/// The memory limit named by a limit text, or `None` when it does not fit
/// in an `i64` (where the computation overflows).
pub fn checked_memory_limit(limit: &str) -> (bytes: Option<i64>)
    ensures
        (i64::MIN <= memory_limit_spec(lowercase(limit@)) <= i64::MAX) ==> bytes == Some(
            memory_limit_spec(lowercase(limit@)) as i64,
        ),
        !(i64::MIN <= memory_limit_spec(lowercase(limit@)) <= i64::MAX) ==> bytes is None,
{
    let lower = to_lowercase(limit);
    let l = lower.as_str();
    let (v, unit): (i64, i64) = match strip_suffix(l, "g") {
        Some(n) => (
            match parse_i64(n.as_str()) {
                Some(v) => v,
                None => 1,
            },
            1073741824,
        ),
        None => match strip_suffix(l, "m") {
            Some(n) => (
                match parse_i64(n.as_str()) {
                    Some(v) => v,
                    None => 512,
                },
                1048576,
            ),
            None => match strip_suffix(l, "k") {
                Some(n) => (
                    match parse_i64(n.as_str()) {
                        Some(v) => v,
                        None => 512,
                    },
                    1024,
                ),
                None => (
                    match parse_i64(l) {
                        Some(v) => v,
                        None => 1073741824,
                    },
                    1,
                ),
            },
        },
    };
    assert(memory_limit_spec(lowercase(limit@)) == v * unit);
    match v.checked_mul(unit) {
        Some(_) => Some(parse_memory_limit(limit)),
        None => None,
    }
}

/// How the long-lived workspace container is created.
#[derive(Debug)]
pub struct WorkspaceContainerSettings {
    pub image: String,
    pub working_dir: String,
    pub cmd: Vec<String>,
    pub tty: bool,
    pub memory_bytes: i64,
    pub cpu_period: i64,
    pub binds: Vec<String>,
    pub network_mode: String,
    pub pids_limit: i64,
}

/// The settings of the workspace container: the configured image running
/// `/bin/bash` with a terminal in `/workspace`; the configured memory limit;
/// a CPU period of 100 ms; the host workspace mounted at `/workspace`; no
/// network; at most 256 processes. `None` when the memory limit does not
/// fit in an `i64`. (The CPU quota is the configured CPU share of the
/// period, which is a float.)
pub fn workspace_container_settings(config: &DockerConfig, workspace_path: &str) -> (r: Option<
    WorkspaceContainerSettings,
>)
    ensures
        !(i64::MIN <= memory_limit_spec(lowercase(config.memory_limit@)) <= i64::MAX) ==> r is None,
        (i64::MIN <= memory_limit_spec(lowercase(config.memory_limit@)) <= i64::MAX) ==> (r matches Some(
            s,
        ) && s.image == config.base_image && s.working_dir@ == "/workspace"@ && texts_of(s.cmd@)
            == seq!["/bin/bash"@] && s.tty && s.memory_bytes == memory_limit_spec(
            lowercase(config.memory_limit@),
        ) && s.cpu_period == 100000 && texts_of(s.binds@) == seq![workspace_path@ + ":/workspace"@]
            && s.network_mode@ == "none"@ && s.pids_limit == 256),
{
    match checked_memory_limit(config.memory_limit.as_str()) {
        None => None,
        Some(memory_bytes) => {
            let mut cmd: Vec<String> = Vec::new();
            cmd.push(String::from_str("/bin/bash"));
            let mut binds: Vec<String> = Vec::new();
            binds.push(workspace_bind(workspace_path));
            assert(texts_of(cmd@) =~= seq!["/bin/bash"@]);
            assert(texts_of(binds@) =~= seq![workspace_path@ + ":/workspace"@]);
            Some(
                WorkspaceContainerSettings {
                    image: config.base_image.clone(),
                    working_dir: String::from_str("/workspace"),
                    cmd,
                    tty: true,
                    memory_bytes,
                    cpu_period: 100000,
                    binds,
                    network_mode: String::from_str("none"),
                    pids_limit: 256,
                },
            )
        },
    }
}

} // verus!

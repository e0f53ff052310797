//! The decisions of the agent harness: when the agent loop stops, how test
//! runs are judged, which files count as the solution, and the requests it
//! sends into the workspace container.

use vstd::prelude::*;
use vstd::string::{StrSliceExecFns, StringExecFns};
use crate::clock::{iso8601_utc, is_iso8601_of, unix_time_secs};
use crate::challenge::{
    Challenge, ChallengeResult, SolutionMetrics, SolutionStatus, TestExecution,
    TestResult,
};
use crate::error::NinjaError;
use crate::executor::{ExecutionRequest, ExecutionResult, FileOperation, FileOperationType};
use crate::llm::{ChatMessage, ChatResponse};
use crate::text::{
    byte_len, decimal, has_substring, has_suffix, lemma_infix_substring, lowercase, str_byte_len,
    str_contains,
    str_ends_with, str_equal, texts_of, to_lowercase, append_decimal, append_signed_decimal, join,
    join_texts, opt_text, signed_decimal, debug_list, debug_string_list,
};

verus! {

/// The most completions the agent loop asks for in one attempt.
pub const MAX_AGENT_ITERATIONS: u32 = 20;

/// The working directory of every command the harness runs.
pub const WORKSPACE_DIR: &'static str = "/workspace";

/// The agent's text says it is done: it mentions `done`, `complete`,
/// `finished` or `solution is ready`, in any case.
pub open spec fn says_done(content: Seq<char>) -> bool {
    let lower = lowercase(content);
    has_substring(lower, "done"@) || has_substring(lower, "complete"@) || has_substring(
        lower,
        "finished"@,
    ) || has_substring(lower, "solution is ready"@)
}

/// The agent loop stops after an answer that says it is done, or that asks
/// for no tool and is longer than fifty bytes.
pub open spec fn stop_spec(content: Seq<char>, tool_call_count: nat) -> bool {
    says_done(content) || (tool_call_count == 0 && byte_len(content) > 50)
}

/// Whether the agent loop stops after an answer with this text and this
/// many tool calls.
pub fn should_stop_agent_loop(content: &str, tool_call_count: usize) -> (stop: bool)
    ensures
        stop == stop_spec(content@, tool_call_count as nat),
{
    let lower = to_lowercase(content);
    let l = lower.as_str();
    if str_contains(l, "done") || str_contains(l, "complete") || str_contains(l, "finished")
        || str_contains(l, "solution is ready") {
        return true;
    }
    tool_call_count == 0 && str_byte_len(content) > 50
}

/// A command run in the workspace directory, with no environment and the
/// given time limit.
pub fn workspace_request(command: String, timeout_seconds: u64) -> (r: ExecutionRequest)
    ensures
        r.working_directory@ == WORKSPACE_DIR@,
        r.command == command,
        r.environment@.len() == 0,
        r.timeout_seconds == Some(timeout_seconds),
{
    ExecutionRequest {
        working_directory: String::from_str(WORKSPACE_DIR),
        command,
        environment: Vec::new(),
        timeout_seconds: Some(timeout_seconds),
    }
}

/// The output recorded for a test run: its standard output, then its
/// standard error, each under a heading.
pub open spec fn test_output_spec(stdout: Seq<char>, stderr: Seq<char>) -> Seq<char> {
    "stdout:\n"@ + stdout + "\nstderr:\n"@ + stderr
}

/// The record of a test run: it passed exactly when its command succeeded.
pub fn test_execution(test_name: String, result: &ExecutionResult, execution_time_ms: u64) -> (t:
    TestExecution)
    ensures
        t.test_name == test_name,
        t.status == (if result.success {
            TestResult::Pass
        } else {
            TestResult::Fail
        }),
        t.output@ == test_output_spec(result.stdout@, result.stderr@),
        t.execution_time_ms == execution_time_ms,
{
    let mut output = String::from_str("stdout:\n");
    output.append(result.stdout.as_str());
    output.append("\nstderr:\n");
    output.append(result.stderr.as_str());
    TestExecution {
        test_name,
        status: if result.success {
            TestResult::Pass
        } else {
            TestResult::Fail
        },
        output,
        execution_time_ms,
    }
}

/// The name under which the validation command at `index` (counted from
/// zero) is reported: `validation_` and its position counted from one.
pub fn validation_test_name(index: usize) -> (name: String)
    requires
        index < u64::MAX,
    ensures
        name@ == "validation_"@ + decimal(index as nat + 1),
{
    let mut name = String::from_str("validation_");
    append_decimal(&mut name, index as u64 + 1);
    name
}

/// How many of the test runs passed.
pub open spec fn passing_tests(tests: Seq<TestExecution>) -> nat
    decreases tests.len(),
{
    if tests.len() == 0 {
        0
    } else {
        passing_tests(tests.drop_last()) + if tests.last().status == TestResult::Pass {
            1nat
        } else {
            0nat
        }
    }
}

/// The status of an attempt judged by its test runs: solved when every run
/// passed (also when there was none), partial when some passed, failed
/// otherwise.
pub open spec fn final_status_spec(tests: Seq<TestExecution>) -> SolutionStatus {
    let passed = passing_tests(tests);
    if passed == tests.len() {
        SolutionStatus::Solved
    } else if passed > 0 {
        SolutionStatus::Partial
    } else {
        SolutionStatus::Failed
    }
}

proof fn lemma_passing_bound(tests: Seq<TestExecution>)
    ensures
        passing_tests(tests) <= tests.len(),
    decreases tests.len(),
{
    if tests.len() > 0 {
        lemma_passing_bound(tests.drop_last());
    }
}

/// The status of an attempt, from its test runs.
pub fn final_status(tests: &Vec<TestExecution>) -> (s: SolutionStatus)
    ensures
        s == final_status_spec(tests@),
{
    let mut passed: usize = 0;
    let mut i: usize = 0;
    while i < tests.len()
        invariant
            i <= tests@.len(),
            passed == passing_tests(tests@.take(i as int)),
        decreases tests@.len() - i,
    {
        assert(tests@.take(i + 1).drop_last() =~= tests@.take(i as int));
        proof {
            lemma_passing_bound(tests@.take(i as int));
        }
        if tests[i].status == TestResult::Pass {
            passed = passed + 1;
        }
        i = i + 1;
    }
    assert(tests@.take(i as int) =~= tests@);
    if passed == tests.len() {
        SolutionStatus::Solved
    } else if passed > 0 {
        SolutionStatus::Partial
    } else {
        SolutionStatus::Failed
    }
}

proof fn lemma_passing_extremes(tests: Seq<TestExecution>)
    ensures
        (passing_tests(tests) == tests.len()) <==> (forall|i: int|
            0 <= i < tests.len() ==> #[trigger] tests[i].status == TestResult::Pass),
        (passing_tests(tests) > 0) <==> (exists|i: int|
            0 <= i < tests.len() && #[trigger] tests[i].status == TestResult::Pass),
    decreases tests.len(),
{
    if tests.len() > 0 {
        let init = tests.drop_last();
        lemma_passing_extremes(init);
        lemma_passing_bound(init);
        assert forall|i: int| 0 <= i < init.len() implies #[trigger] init[i] == tests[i] by {}
        if forall|i: int| 0 <= i < tests.len() ==> #[trigger] tests[i].status == TestResult::Pass {
            assert forall|i: int| 0 <= i < init.len() implies #[trigger] init[i].status
                == TestResult::Pass by {
                assert(tests[i].status == TestResult::Pass);
            }
            assert(tests[tests.len() - 1].status == TestResult::Pass);
        }
        if passing_tests(tests) == tests.len() {
            assert forall|i: int| 0 <= i < tests.len() implies #[trigger] tests[i].status
                == TestResult::Pass by {
                if i < init.len() {
                    assert(init[i].status == TestResult::Pass);
                }
            }
        }
        if exists|i: int| 0 <= i < tests.len() && #[trigger] tests[i].status == TestResult::Pass {
            let i = choose|i: int| 0 <= i < tests.len() && #[trigger] tests[i].status
                == TestResult::Pass;
            if i < init.len() {
                assert(init[i].status == TestResult::Pass);
            }
        }
        if passing_tests(tests) > 0 && tests.last().status != TestResult::Pass {
            let i = choose|i: int| 0 <= i < init.len() && #[trigger] init[i].status
                == TestResult::Pass;
            assert(tests[i].status == TestResult::Pass);
        }
        if tests.last().status == TestResult::Pass {
            assert(tests[tests.len() - 1].status == TestResult::Pass);
        }
    }
}

/// An attempt is solved exactly when every test run passed, partial when
/// some but not all passed, and failed when there were runs and none
/// passed.
pub proof fn lemma_final_status_cases(tests: Seq<TestExecution>)
    ensures
        (final_status_spec(tests) == SolutionStatus::Solved) <==> (forall|i: int|
            0 <= i < tests.len() ==> #[trigger] tests[i].status == TestResult::Pass),
        (final_status_spec(tests) == SolutionStatus::Partial) <==> ((exists|i: int|
            0 <= i < tests.len() && #[trigger] tests[i].status == TestResult::Pass) && (exists|
            j: int,
        | 0 <= j < tests.len() && #[trigger] tests[j].status != TestResult::Pass)),
        (final_status_spec(tests) == SolutionStatus::Failed) <==> (tests.len() > 0 && forall|
            i: int,
        | 0 <= i < tests.len() ==> #[trigger] tests[i].status != TestResult::Pass),
{
    lemma_passing_extremes(tests);
    lemma_passing_bound(tests);
}

/// A listed path belongs to the solution unless it is compiled Python, or
/// lies under a `__pycache__`, `.git/` or `node_modules/` directory.
pub open spec fn is_solution_path(path: Seq<char>) -> bool {
    !has_substring(path, "__pycache__"@) && !has_suffix(path, ".pyc"@) && !has_substring(
        path,
        ".git/"@,
    ) && !has_substring(path, "node_modules/"@)
}

/// The solution paths of a listing, in their order.
pub open spec fn solution_paths(paths: Seq<Seq<char>>) -> Seq<Seq<char>>
    decreases paths.len(),
{
    if paths.len() == 0 {
        Seq::empty()
    } else {
        let rest = solution_paths(paths.drop_last());
        if is_solution_path(paths.last()) {
            rest.push(paths.last())
        } else {
            rest
        }
    }
}

/// The solution files of a listing are exactly its solution paths: each
/// kept path is a solution path that was listed, each listed solution path
/// is kept, nothing is added, and filtering again changes nothing.
pub proof fn lemma_solution_paths(paths: Seq<Seq<char>>)
    ensures
        solution_paths(paths).len() <= paths.len(),
        forall|i: int|
            0 <= i < solution_paths(paths).len() ==> is_solution_path(
                #[trigger] solution_paths(paths)[i],
            ) && paths.contains(solution_paths(paths)[i]),
        forall|i: int|
            0 <= i < paths.len() && is_solution_path(#[trigger] paths[i]) ==> solution_paths(
                paths,
            ).contains(paths[i]),
        solution_paths(solution_paths(paths)) == solution_paths(paths),
    decreases paths.len(),
{
    if paths.len() > 0 {
        let init = paths.drop_last();
        let rest = solution_paths(init);
        lemma_solution_paths(init);
        let sol = solution_paths(paths);
        assert forall|i: int| 0 <= i < sol.len() implies is_solution_path(#[trigger] sol[i])
            && paths.contains(sol[i]) by {
            if i < rest.len() {
                assert(sol[i] == rest[i]);
                let k = choose|k: int| 0 <= k < init.len() && init[k] == rest[i];
                assert(paths[k] == init[k]);
            } else {
                assert(sol[i] == paths.last());
                assert(paths[paths.len() - 1] == paths.last());
            }
        }
        assert forall|i: int| 0 <= i < paths.len() && is_solution_path(#[trigger] paths[i]) implies sol.contains(
            paths[i],
        ) by {
            if i < init.len() {
                assert(init[i] == paths[i]);
                let k = choose|k: int| 0 <= k < rest.len() && rest[k] == init[i];
                assert(sol[k] == rest[k]);
            } else {
                assert(sol[sol.len() - 1] == paths.last());
            }
        }
        if is_solution_path(paths.last()) {
            assert(sol.drop_last() =~= rest);
            assert(solution_paths(sol) == solution_paths(rest).push(paths.last()));
        } else {
            assert(sol == rest);
        }
    }
}

/// Whether a listed path belongs to the solution.
pub fn is_solution_file(path: &str) -> (keep: bool)
    ensures
        keep == is_solution_path(path@),
{
    !str_contains(path, "__pycache__") && !str_ends_with(path, ".pyc") && !str_contains(
        path,
        ".git/",
    ) && !str_contains(path, "node_modules/")
}

/// The files of a workspace listing that make up the solution, in order.
pub fn solution_files(listed: Vec<String>) -> (files: Vec<String>)
    ensures
        texts_of(files@) == solution_paths(texts_of(listed@)),
{
    let mut files: Vec<String> = Vec::new();
    let mut i: usize = 0;
    while i < listed.len()
        invariant
            i <= listed@.len(),
            texts_of(files@) == solution_paths(texts_of(listed@).take(i as int)),
        decreases listed@.len() - i,
    {
        let ghost before = texts_of(files@);
        assert(texts_of(listed@).take(i + 1).drop_last() =~= texts_of(listed@).take(i as int));
        assert(texts_of(listed@).take(i + 1).last() == listed@[i as int]@);
        if is_solution_file(listed[i].as_str()) {
            files.push(listed[i].clone());
            assert(texts_of(files@) =~= before.push(listed@[i as int]@));
        }
        i = i + 1;
    }
    assert(texts_of(listed@).take(i as int) =~= texts_of(listed@));
    files
}

/// The command that checks that the container engine runs commands.
pub fn container_check_request() -> (r: ExecutionRequest)
    ensures
        r.working_directory@ == WORKSPACE_DIR@,
        r.command@ == "echo 'Hello from container'"@,
        r.environment@.len() == 0,
        r.timeout_seconds == Some(10u64),
{
    workspace_request(String::from_str("echo 'Hello from container'"), 10)
}

/// The verdict on the container check: a validation error carrying the
/// command's standard error when it failed.
pub fn container_check_outcome(result: &ExecutionResult) -> (r: Result<(), NinjaError>)
    ensures
        result.success ==> r is Ok,
        !result.success ==> (r matches Err(NinjaError::Validation(m)) && m@
            == "Docker test execution failed: "@ + result.stderr@),
{
    if result.success {
        Ok(())
    } else {
        let mut m = String::from_str("Docker test execution failed: ");
        m.append(result.stderr.as_str());
        Err(NinjaError::Validation(m))
    }
}

/// Where the result of a challenge is saved: `result_<id>.json` in the
/// output directory.
pub fn result_path(output_dir: &str, challenge_id: &str) -> (p: String)
    ensures
        p@ == output_dir@ + "/result_"@ + challenge_id@ + ".json"@,
{
    let mut p = String::from_str(output_dir);
    p.append("/result_");
    p.append(challenge_id);
    p.append(".json");
    p
}

/// What `serde_json` reads as the string member `key` of the JSON text
/// `json`: `None` when the text is not JSON, not an object, has no such
/// member, or the member is not a string.
pub uninterp spec fn json_text_member(json: Seq<char>, key: Seq<char>) -> Option<Seq<char>>;

/// What `serde_json` reads as the boolean member `key` of the JSON text
/// `json`, `None` in the same cases as for a string member.
pub uninterp spec fn json_flag_member(json: Seq<char>, key: Seq<char>) -> Option<bool>;

/// Reads a string member of a JSON object.
///
/// Trusted: parses with `serde_json::from_str` into a `serde_json::Value`,
/// then calls `Value::get` and `Value::as_str`; the contract only names the
/// result, which depends on the text and the key alone.
#[verifier::external_body]
fn text_member(json: &str, key: &str) -> (r: Option<String>)
    ensures
        opt_text(r) == json_text_member(json@, key@),
{
    let v: serde_json::Value = serde_json::from_str(json).ok()?;
    v.get(key)?.as_str().map(|s| s.to_string())
}

/// Reads a boolean member of a JSON object.
///
/// Trusted: parses with `serde_json::from_str` into a `serde_json::Value`,
/// then calls `Value::get` and `Value::as_bool`; the contract only names
/// the result, which depends on the text and the key alone.
#[verifier::external_body]
fn flag_member(json: &str, key: &str) -> (r: Option<bool>)
    ensures
        r == json_flag_member(json@, key@),
{
    let v: serde_json::Value = serde_json::from_str(json).ok()?;
    v.get(key)?.as_bool()
}

/// The members of a tool call's arguments that the tools read.
#[derive(Debug)]
pub struct ToolArguments {
    pub path: Option<String>,
    pub content: Option<String>,
    pub command: Option<String>,
    pub working_directory: Option<String>,
    pub recursive: Option<bool>,
}

/// Reads the members `path`, `content`, `command`, `working_directory`
/// and `recursive` of a tool call's JSON arguments.
pub fn tool_arguments(json: &str) -> (a: ToolArguments)
    ensures
        opt_text(a.path) == json_text_member(json@, "path"@),
        opt_text(a.content) == json_text_member(json@, "content"@),
        opt_text(a.command) == json_text_member(json@, "command"@),
        opt_text(a.working_directory) == json_text_member(json@, "working_directory"@),
        a.recursive == json_flag_member(json@, "recursive"@),
{
    ToolArguments {
        path: text_member(json, "path"),
        content: text_member(json, "content"),
        command: text_member(json, "command"),
        working_directory: text_member(json, "working_directory"),
        recursive: flag_member(json, "recursive"),
    }
}

/// What a tool call asks the harness to do in the workspace container.
#[derive(Debug)]
pub enum ToolAction {
    ReadFile { path: String },
    WriteFile { path: String, content: String },
    ExecuteCommand { request: ExecutionRequest },
    ListFiles { path: String, recursive: bool },
    Unknown { name: String },
}

/// The text of the execution error for a tool call without a required
/// string member.
pub open spec fn missing_parameter(member: Seq<char>) -> Seq<char> {
    "Missing "@ + member + " parameter"@
}

fn missing_parameter_error(member: &str) -> (e: NinjaError)
    ensures
        e matches NinjaError::Execution(m) && m@ == missing_parameter(member@),
{
    let mut m = String::from_str("Missing ");
    m.append(member);
    m.append(" parameter");
    NinjaError::Execution(m)
}

/// The action of a tool call, as plain values: which tool, and what it
/// acts on.
pub enum ActionModel {
    ReadFile(Seq<char>),
    WriteFile(Seq<char>, Seq<char>),
    ExecuteCommand(Seq<char>, Seq<char>),
    ListFiles(Seq<char>, bool),
    Unknown(Seq<char>),
}

/// An action as plain values; a command is given by its text and its
/// working directory.
pub open spec fn action_model(a: ToolAction) -> ActionModel {
    match a {
        ToolAction::ReadFile { path } => ActionModel::ReadFile(path@),
        ToolAction::WriteFile { path, content } => ActionModel::WriteFile(path@, content@),
        ToolAction::ExecuteCommand { request } => ActionModel::ExecuteCommand(
            request.command@,
            request.working_directory@,
        ),
        ToolAction::ListFiles { path, recursive } => ActionModel::ListFiles(path@, recursive),
        ToolAction::Unknown { name } => ActionModel::Unknown(name@),
    }
}

/// The action a tool call asks for, or the text of the execution error for
/// a missing member:
/// `read_file` needs a path; `write_file` a path, then content;
/// `execute_command` a command, run in the given working directory or
/// else the workspace; `list_files` a path, listed recursively only when
/// asked; any other name is an unknown tool.
pub open spec fn tool_action_spec(
    name: Seq<char>,
    path: Option<Seq<char>>,
    content: Option<Seq<char>>,
    command: Option<Seq<char>>,
    working_directory: Option<Seq<char>>,
    recursive: Option<bool>,
) -> Result<ActionModel, Seq<char>> {
    if name == "read_file"@ {
        match path {
            Some(p) => Ok(ActionModel::ReadFile(p)),
            None => Err(missing_parameter("path"@)),
        }
    } else if name == "write_file"@ {
        match (path, content) {
            (Some(p), Some(c)) => Ok(ActionModel::WriteFile(p, c)),
            (None, _) => Err(missing_parameter("path"@)),
            (Some(_), None) => Err(missing_parameter("content"@)),
        }
    } else if name == "execute_command"@ {
        match command {
            Some(c) => Ok(
                ActionModel::ExecuteCommand(
                    c,
                    match working_directory {
                        Some(w) => w,
                        None => WORKSPACE_DIR@,
                    },
                ),
            ),
            None => Err(missing_parameter("command"@)),
        }
    } else if name == "list_files"@ {
        match path {
            Some(p) => Ok(
                ActionModel::ListFiles(
                    p,
                    match recursive {
                        Some(b) => b,
                        None => false,
                    },
                ),
            ),
            None => Err(missing_parameter("path"@)),
        }
    } else {
        Ok(ActionModel::Unknown(name))
    }
}

/// A planned action as plain values; an execution error by its text, any
/// other error as an empty text.
pub open spec fn planned(r: Result<ToolAction, NinjaError>) -> Result<ActionModel, Seq<char>> {
    match r {
        Ok(a) => Ok(action_model(a)),
        Err(NinjaError::Execution(m)) => Err(m@),
        Err(_) => Err(Seq::empty()),
    }
}

/// What a tool call with these argument members asks for. A command runs
/// with no environment and a limit of sixty seconds.
pub fn tool_action(name: &str, args: ToolArguments) -> (r: Result<ToolAction, NinjaError>)
    ensures
        planned(r) == tool_action_spec(
            name@,
            opt_text(args.path),
            opt_text(args.content),
            opt_text(args.command),
            opt_text(args.working_directory),
            args.recursive,
        ),
        r matches Ok(ToolAction::ExecuteCommand { request }) ==> request.environment@.len() == 0
            && request.timeout_seconds == Some(60u64),
{
    let ToolArguments { path, content, command, working_directory, recursive } = args;
    if str_equal(name, "read_file") {
        match path {
            Some(p) => Ok(ToolAction::ReadFile { path: p }),
            None => Err(missing_parameter_error("path")),
        }
    } else if str_equal(name, "write_file") {
        match path {
            None => Err(missing_parameter_error("path")),
            Some(p) => match content {
                Some(c) => Ok(ToolAction::WriteFile { path: p, content: c }),
                None => Err(missing_parameter_error("content")),
            },
        }
    } else if str_equal(name, "execute_command") {
        match command {
            Some(c) => {
                let wd = match working_directory {
                    Some(w) => w,
                    None => String::from_str(WORKSPACE_DIR),
                };
                Ok(
                    ToolAction::ExecuteCommand {
                        request: ExecutionRequest {
                            working_directory: wd,
                            command: c,
                            environment: Vec::new(),
                            timeout_seconds: Some(60),
                        },
                    },
                )
            },
            None => Err(missing_parameter_error("command")),
        }
    } else if str_equal(name, "list_files") {
        match path {
            Some(p) => Ok(
                ToolAction::ListFiles {
                    path: p,
                    recursive: match recursive {
                        Some(b) => b,
                        None => false,
                    },
                },
            ),
            None => Err(missing_parameter_error("path")),
        }
    } else {
        Ok(ToolAction::Unknown { name: String::from_str(name) })
    }
}

/// What a tool call asks for, read from its name and JSON arguments. A
/// command runs with no environment and a limit of sixty seconds.
pub fn plan_tool_call(name: &str, arguments: &str) -> (r: Result<ToolAction, NinjaError>)
    ensures
        planned(r) == tool_action_spec(
            name@,
            json_text_member(arguments@, "path"@),
            json_text_member(arguments@, "content"@),
            json_text_member(arguments@, "command"@),
            json_text_member(arguments@, "working_directory"@),
            json_flag_member(arguments@, "recursive"@),
        ),
        r matches Ok(ToolAction::ExecuteCommand { request }) ==> request.environment@.len() == 0
            && request.timeout_seconds == Some(60u64),
{
    tool_action(name, tool_arguments(arguments))
}

/// The reply to a `read_file` call: the file's content, or the error's
/// text after `Error reading file: `.
pub fn read_file_reply(outcome: Result<String, NinjaError>) -> (reply: String)
    ensures
        reply@ == match outcome {
            Ok(content) => content@,
            Err(e) => "Error reading file: "@ + e.message_spec(),
        },
{
    match outcome {
        Ok(content) => content,
        Err(e) => {
            let mut reply = String::from_str("Error reading file: ");
            let m = e.message();
            reply.append(m.as_str());
            reply
        },
    }
}

/// The counters after one more modified file.
pub open spec fn with_file_modified(m: SolutionMetrics) -> SolutionMetrics {
    SolutionMetrics { files_modified: (m.files_modified + 1) as u32, ..m }
}

/// The reply to a `write_file` call, counting the file as modified when
/// the write succeeded.
pub fn write_file_reply(path: &str, outcome: &Result<(), NinjaError>, metrics: &mut SolutionMetrics) -> (reply: String)
    requires
        outcome is Ok ==> old(metrics).files_modified < u32::MAX,
    ensures
        reply@ == match outcome {
            Ok(_) => "Successfully wrote to file: "@ + path@,
            Err(e) => "Error writing file: "@ + e.message_spec(),
        },
        *final(metrics) == if outcome is Ok {
            with_file_modified(*old(metrics))
        } else {
            *old(metrics)
        },
{
    match outcome {
        Ok(_) => {
            metrics.files_modified = metrics.files_modified + 1;
            let mut reply = String::from_str("Successfully wrote to file: ");
            reply.append(path);
            reply
        },
        Err(e) => {
            let mut reply = String::from_str("Error writing file: ");
            let m = e.message();
            reply.append(m.as_str());
            reply
        },
    }
}

/// The reply to an `execute_command` call: the exit code, then the
/// standard output and error under headings.
pub open spec fn command_reply_spec(r: ExecutionResult) -> Seq<char> {
    "Exit code: "@ + signed_decimal(r.exit_code as int) + "\nStdout:\n"@ + r.stdout@
        + "\nStderr:\n"@ + r.stderr@
}

/// The reply to an `execute_command` call.
pub fn command_reply(result: &ExecutionResult) -> (reply: String)
    ensures
        reply@ == command_reply_spec(*result),
{
    let mut reply = String::from_str("Exit code: ");
    append_signed_decimal(&mut reply, result.exit_code);
    reply.append("\nStdout:\n");
    reply.append(result.stdout.as_str());
    reply.append("\nStderr:\n");
    reply.append(result.stderr.as_str());
    reply
}

/// The reply to a `list_files` call: one path per line, or the error's
/// text after `Error listing files: `.
pub fn list_files_reply(outcome: Result<Vec<String>, NinjaError>) -> (reply: String)
    ensures
        reply@ == match outcome {
            Ok(files) => join_texts(texts_of(files@), "\n"@),
            Err(e) => "Error listing files: "@ + e.message_spec(),
        },
{
    match outcome {
        Ok(files) => join(&files, "\n"),
        Err(e) => {
            let mut reply = String::from_str("Error listing files: ");
            let m = e.message();
            reply.append(m.as_str());
            reply
        },
    }
}

/// The reply to a call of a tool the harness does not offer.
pub fn unknown_tool_reply(name: &str) -> (reply: String)
    ensures
        reply@ == "Unknown tool: "@ + name@,
{
    let mut reply = String::from_str("Unknown tool: ");
    reply.append(name);
    reply
}

/// How one tool's result is reported back to the agent.
pub open spec fn tool_entry_spec(name: Seq<char>, result: Seq<char>) -> Seq<char> {
    "Tool: "@ + name + "\nResult: "@ + result
}

/// Reports one tool's result: its name, then the result.
pub fn tool_result_entry(name: &str, result: &str) -> (entry: String)
    ensures
        entry@ == tool_entry_spec(name@, result@),
{
    let mut entry = String::from_str("Tool: ");
    entry.append(name);
    entry.append("\nResult: ");
    entry.append(result);
    entry
}

/// A message as plain values: its role and its content.
pub open spec fn message_model(m: ChatMessage) -> (Seq<char>, Seq<char>) {
    (m.role@, m.content@)
}

/// The messages of a conversation as plain values.
pub open spec fn conversation_model(c: Seq<ChatMessage>) -> Seq<(Seq<char>, Seq<char>)> {
    c.map_values(|m: ChatMessage| message_model(m))
}

/// The message reporting the results of one round of tool calls: from the
/// user, the entries separated by blank lines under a heading.
pub open spec fn tool_results_spec(entries: Seq<Seq<char>>) -> (Seq<char>, Seq<char>) {
    ("user"@, "Tool execution results:\n"@ + join_texts(entries, "\n\n"@))
}

/// The message reporting the results of one round of tool calls.
pub fn tool_results_message(entries: &Vec<String>) -> (m: ChatMessage)
    ensures
        message_model(m) == tool_results_spec(texts_of(entries@)),
{
    let mut content = String::from_str("Tool execution results:\n");
    let joined = join(entries, "\n\n");
    content.append(joined.as_str());
    ChatMessage { role: String::from_str("user"), content }
}

/// The instructions the agent starts from: the challenge's title,
/// description, language, difficulty and expected files, and how to work.
pub open spec fn system_prompt_spec(c: Challenge) -> Seq<char> {
    "You are a programming assistant that solves coding challenges. Your task is to solve this challenge:\n\nTitle: "@
        + c.title@ + "\nDescription: "@ + c.description@ + "\nLanguage: "@ + c.language@
        + "\nDifficulty: "@ + c.difficulty.name_spec() + "\n\nExpected files to create/modify: "@
        + debug_list(texts_of(c.expected_files@)) + AGENT_GUIDANCE@
}

/// How the agent is asked to work, after the list of expected files.
pub const AGENT_GUIDANCE: &'static str = "\n\nYou have access to tools to read files, write files, execute commands, and list files. Work systematically to understand the problem and implement a solution.\n\nAfter implementing your solution, run any tests or validation to ensure it works correctly.";

/// The agent's system prompt tells it the challenge: its title, its
/// description and its language each occur in the prompt.
pub proof fn lemma_system_prompt_mentions_challenge(c: Challenge)
    ensures
        has_substring(system_prompt_spec(c), c.title@),
        has_substring(system_prompt_spec(c), c.description@),
        has_substring(system_prompt_spec(c), c.language@),
{
    let intro: Seq<char> =
        "You are a programming assistant that solves coding challenges. Your task is to solve this challenge:\n\nTitle: "@;
    let after_lang: Seq<char> = "\nDifficulty: "@ + c.difficulty.name_spec()
        + "\n\nExpected files to create/modify: "@ + debug_list(texts_of(c.expected_files@))
        + AGENT_GUIDANCE@;
    let after_desc: Seq<char> = "\nLanguage: "@ + c.language@ + after_lang;
    let after_title: Seq<char> = "\nDescription: "@ + c.description@ + after_desc;
    let before_desc: Seq<char> = intro + c.title@ + "\nDescription: "@;
    let before_lang: Seq<char> = before_desc + c.description@ + "\nLanguage: "@;
    assert(system_prompt_spec(c) =~= intro + c.title@ + after_title);
    assert(system_prompt_spec(c) =~= before_desc + c.description@ + after_desc);
    assert(system_prompt_spec(c) =~= before_lang + c.language@ + after_lang);
    lemma_infix_substring(intro, c.title@, after_title);
    lemma_infix_substring(before_desc, c.description@, after_desc);
    lemma_infix_substring(before_lang, c.language@, after_lang);
}

/// The system prompt of the agent loop for a challenge.
pub fn agent_system_prompt(c: &Challenge) -> (p: String)
    ensures
        p@ == system_prompt_spec(*c),
        has_substring(p@, c.title@),
        has_substring(p@, c.description@),
        has_substring(p@, c.language@),
{
    proof {
        lemma_system_prompt_mentions_challenge(*c);
    }
    let mut p = String::from_str(
        "You are a programming assistant that solves coding challenges. Your task is to solve this challenge:\n\nTitle: ",
    );
    p.append(c.title.as_str());
    p.append("\nDescription: ");
    p.append(c.description.as_str());
    p.append("\nLanguage: ");
    p.append(c.language.as_str());
    p.append("\nDifficulty: ");
    let d = c.difficulty.name();
    p.append(d.as_str());
    p.append("\n\nExpected files to create/modify: ");
    let files = debug_string_list(&c.expected_files);
    p.append(files.as_str());
    p.append(AGENT_GUIDANCE);
    p
}

/// The state of the agent loop between completions: the conversation so
/// far, how many rounds of tool calls went on, and whether it has stopped.
#[derive(Debug)]
pub struct AgentState {
    pub conversation: Vec<ChatMessage>,
    pub iteration: u32,
    pub finished: bool,
}

/// The counters after one more completion that used `tokens` tokens.
pub open spec fn with_completion(m: SolutionMetrics, tokens: u32) -> SolutionMetrics {
    SolutionMetrics {
        llm_calls_made: (m.llm_calls_made + 1) as u32,
        tokens_used: (m.tokens_used + tokens) as u32,
        ..m
    }
}

/// The counters after one more tool call.
pub open spec fn with_tool_call(m: SolutionMetrics) -> SolutionMetrics {
    SolutionMetrics { tool_calls_made: (m.tool_calls_made + 1) as u32, ..m }
}

/// Counts one tool call.
pub fn count_tool_call(metrics: &mut SolutionMetrics)
    requires
        old(metrics).tool_calls_made < u32::MAX,
    ensures
        *final(metrics) == with_tool_call(*old(metrics)),
{
    metrics.tool_calls_made = metrics.tool_calls_made + 1;
}

impl AgentState {
    /// A loop that has not stopped has gone through fewer rounds than the
    /// limit.
    pub open spec fn wf(self) -> bool {
        self.finished || self.iteration < MAX_AGENT_ITERATIONS
    }

    /// The loop before its first completion: only the system prompt.
    pub fn start(c: &Challenge) -> (s: AgentState)
        ensures
            conversation_model(s.conversation@) == seq![("system"@, system_prompt_spec(*c))],
            s.iteration == 0,
            !s.finished,
            s.wf(),
    {
        let prompt = agent_system_prompt(c);
        let mut conversation: Vec<ChatMessage> = Vec::new();
        conversation.push(ChatMessage { role: String::from_str("system"), content: prompt });
        assert(conversation_model(conversation@) =~= seq![("system"@, system_prompt_spec(*c))]);
        AgentState { conversation, iteration: 0, finished: false }
    }

    /// Whether the loop asks for another completion: it has not stopped
    /// and has not reached the limit of rounds.
    pub fn wants_completion(&self) -> (r: bool)
        ensures
            r == (!self.finished && self.iteration < MAX_AGENT_ITERATIONS),
    {
        !self.finished && self.iteration < MAX_AGENT_ITERATIONS
    }

    /// Takes in a completion: counts it and its tokens, keeps its text as
    /// the assistant's message when there is one, and stops the loop when it
    /// asks for no tools.
    pub fn receive_response(&mut self, metrics: &mut SolutionMetrics, response: &ChatResponse)
        requires
            old(self).wf(),
            old(metrics).llm_calls_made < u32::MAX,
            old(metrics).tokens_used + response.usage.total_tokens <= u32::MAX,
        ensures
            *final(metrics) == with_completion(*old(metrics), response.usage.total_tokens),
            conversation_model(final(self).conversation@) == if response.content@.len() > 0 {
                conversation_model(old(self).conversation@).push(("assistant"@, response.content@))
            } else {
                conversation_model(old(self).conversation@)
            },
            final(self).iteration == old(self).iteration,
            final(self).finished == (old(self).finished || response.tool_calls is None),
            final(self).wf(),
    {
        metrics.llm_calls_made = metrics.llm_calls_made + 1;
        metrics.tokens_used = metrics.tokens_used + response.usage.total_tokens;
        if response.content.as_str().unicode_len() > 0 {
            let ghost before = conversation_model(self.conversation@);
            self.conversation.push(
                ChatMessage { role: String::from_str("assistant"), content: response.content.clone() },
            );
            assert(conversation_model(self.conversation@) =~= before.push(
                ("assistant"@, response.content@),
            ));
        }
        if response.tool_calls.is_none() {
            self.finished = true;
        }
    }

    /// Takes in the results of a round of tool calls asked for by an answer
    /// with text `content`: reports them when there are any, then stops the
    /// loop when the answer calls for it, or else counts the round.
    pub fn receive_tool_results(&mut self, content: &str, tool_call_count: usize, entries: &Vec<String>)
        requires
            !old(self).finished,
            old(self).wf(),
        ensures
            conversation_model(final(self).conversation@) == if entries@.len() > 0 {
                conversation_model(old(self).conversation@).push(tool_results_spec(texts_of(entries@)))
            } else {
                conversation_model(old(self).conversation@)
            },
            final(self).finished == stop_spec(content@, tool_call_count as nat),
            final(self).iteration == if stop_spec(content@, tool_call_count as nat) {
                old(self).iteration
            } else {
                (old(self).iteration + 1) as u32
            },
            final(self).wf() || final(self).iteration == MAX_AGENT_ITERATIONS,
    {
        if entries.len() > 0 {
            let ghost before = conversation_model(self.conversation@);
            let m = tool_results_message(entries);
            self.conversation.push(m);
            assert(conversation_model(self.conversation@) =~= before.push(
                tool_results_spec(texts_of(entries@)),
            ));
        }
        if should_stop_agent_loop(content, tool_call_count) {
            self.finished = true;
        } else {
            self.iteration = self.iteration + 1;
        }
    }
}

/// The files set up empty in the workspace before the agent starts: one
/// for each expected file.
pub fn setup_file_operations(expected_files: &Vec<String>) -> (ops: Vec<FileOperation>)
    ensures
        ops@.len() == expected_files@.len(),
        forall|i: int|
            0 <= i < ops@.len() ==> (#[trigger] ops@[i]).path == expected_files@[i]
                && ops@[i].content@.len() == 0 && ops@[i].operation_type
                == FileOperationType::Create,
{
    let mut ops: Vec<FileOperation> = Vec::new();
    let mut i: usize = 0;
    while i < expected_files.len()
        invariant
            i <= expected_files@.len(),
            ops@.len() == i,
            forall|k: int|
                0 <= k < i ==> (#[trigger] ops@[k]).path == expected_files@[k]
                    && ops@[k].content@.len() == 0 && ops@[k].operation_type
                    == FileOperationType::Create,
        decreases expected_files@.len() - i,
    {
        ops.push(
            FileOperation {
                path: expected_files[i].clone(),
                content: String::new(),
                operation_type: FileOperationType::Create,
            },
        );
        i = i + 1;
    }
    ops
}

/// Marks an attempt whose agent loop failed.
pub fn record_agent_error(result: &mut ChallengeResult, error: &NinjaError)
    ensures
        final(result).status == SolutionStatus::Error,
        final(result).error_message matches Some(m) && m@ == "Agent loop error: "@
            + error.message_spec(),
        final(result).challenge_id == old(result).challenge_id,
        final(result).solution_files == old(result).solution_files,
        final(result).execution_log == old(result).execution_log,
        final(result).test_results == old(result).test_results,
        final(result).metrics == old(result).metrics,
        final(result).completed_at == old(result).completed_at,
{
    result.status = SolutionStatus::Error;
    let mut m = String::from_str("Agent loop error: ");
    let text = error.message();
    m.append(text.as_str());
    result.error_message = Some(m);
}

/// Concludes an attempt: records its test runs and the status they give
/// (an attempt already marked as a system error keeps that status), the
/// solution files of the workspace listing, the time it took, and when it
/// completed (as the ISO 8601 timestamp of the given seconds after the Unix
/// epoch).
pub fn finish_result_at(
    result: &mut ChallengeResult,
    test_results: Vec<TestExecution>,
    listed_files: Vec<String>,
    elapsed_ms: u64,
    completed_at_secs: u64,
)
    ensures
        final(result).test_results@ == test_results@,
        final(result).status == if old(result).status == SolutionStatus::Error {
            SolutionStatus::Error
        } else {
            final_status_spec(test_results@)
        },
        texts_of(final(result).solution_files@) == solution_paths(texts_of(listed_files@)),
        final(result).metrics == (SolutionMetrics {
            total_execution_time_ms: elapsed_ms,
            ..old(result).metrics
        }),
        is_iso8601_of(final(result).completed_at@, completed_at_secs as nat),
        final(result).challenge_id == old(result).challenge_id,
        final(result).execution_log == old(result).execution_log,
        final(result).error_message == old(result).error_message,
{
    if result.status != SolutionStatus::Error {
        result.status = final_status(&test_results);
    }
    result.test_results = test_results;
    result.solution_files = solution_files(listed_files);
    result.metrics.total_execution_time_ms = elapsed_ms;
    result.completed_at = iso8601_utc(completed_at_secs);
}

/// Concludes an attempt as `finish_result_at` does, completed now.
pub fn finish_result(
    result: &mut ChallengeResult,
    test_results: Vec<TestExecution>,
    listed_files: Vec<String>,
    elapsed_ms: u64,
)
    ensures
        final(result).test_results@ == test_results@,
        final(result).status == if old(result).status == SolutionStatus::Error {
            SolutionStatus::Error
        } else {
            final_status_spec(test_results@)
        },
        texts_of(final(result).solution_files@) == solution_paths(texts_of(listed_files@)),
        final(result).metrics == (SolutionMetrics {
            total_execution_time_ms: elapsed_ms,
            ..old(result).metrics
        }),
        exists|t: u64| is_iso8601_of(final(result).completed_at@, t as nat),
        final(result).challenge_id == old(result).challenge_id,
        final(result).execution_log == old(result).execution_log,
        final(result).error_message == old(result).error_message,
{
    let now = unix_time_secs();
    finish_result_at(result, test_results, listed_files, elapsed_ms, now);
}

} // verus!

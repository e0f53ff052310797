use ninja::challenge::{
    Challenge, ChallengeResult, SolutionMetrics, SolutionStatus, TestExecution, TestResult,
};
use ninja::error::NinjaError;
use ninja::executor::{ExecutionResult, FileOperationType};
use ninja::harness::{
    agent_system_prompt, command_reply, container_check_outcome, container_check_request,
    count_tool_call, final_status, finish_result_at, is_solution_file, list_files_reply,
    plan_tool_call, read_file_reply, record_agent_error, result_path, setup_file_operations,
    should_stop_agent_loop, solution_files, test_execution, tool_arguments, tool_result_entry,
    tool_results_message, unknown_tool_reply, validation_test_name, workspace_request,
    write_file_reply, AgentState, ToolAction, MAX_AGENT_ITERATIONS,
};
use ninja::llm::{ChatResponse, TokenUsage, ToolCall};

fn run(success: bool, exit_code: i64, stdout: &str, stderr: &str) -> ExecutionResult {
    ExecutionResult {
        stdout: stdout.to_string(),
        stderr: stderr.to_string(),
        exit_code,
        success,
        execution_time_ms: 1,
        timed_out: false,
    }
}

fn execution(status: TestResult) -> TestExecution {
    TestExecution { test_name: "t".to_string(), status, output: String::new(), execution_time_ms: 0 }
}

fn response(content: &str, calls: Option<usize>, tokens: u32) -> ChatResponse {
    ChatResponse {
        content: content.to_string(),
        usage: TokenUsage { prompt_tokens: 0, completion_tokens: 0, total_tokens: tokens },
        tool_calls: calls.map(|n| {
            (0..n)
                .map(|i| ToolCall {
                    id: i.to_string(),
                    name: "list_files".to_string(),
                    arguments: "{\"path\":\"/workspace\"}".to_string(),
                })
                .collect()
        }),
    }
}

#[test]
fn agent_stops_when_it_says_done() {
    assert!(should_stop_agent_loop("The task is DONE.", 2));
    assert!(should_stop_agent_loop("Implementation Complete", 1));
    assert!(should_stop_agent_loop("I have finished", 1));
    assert!(should_stop_agent_loop("The solution is ready", 3));
    assert!(!should_stop_agent_loop("Reading the file now", 1));
}

#[test]
fn agent_stops_after_long_answer_without_tools() {
    let long = "x".repeat(51);
    assert!(should_stop_agent_loop(&long, 0));
    assert!(!should_stop_agent_loop(&"x".repeat(50), 0));
    assert!(!should_stop_agent_loop(&long, 1));
}

#[test]
fn final_status_from_test_runs() {
    assert_eq!(final_status(&vec![execution(TestResult::Pass), execution(TestResult::Pass)]), SolutionStatus::Solved);
    assert_eq!(final_status(&vec![execution(TestResult::Pass), execution(TestResult::Fail)]), SolutionStatus::Partial);
    assert_eq!(final_status(&vec![execution(TestResult::Fail)]), SolutionStatus::Failed);
    assert_eq!(final_status(&Vec::new()), SolutionStatus::Solved);
}

#[test]
fn test_runs_are_recorded() {
    let t = test_execution("unit".to_string(), &run(true, 0, "ok", ""), 12);
    assert_eq!(t.status, TestResult::Pass);
    assert_eq!(t.output, "stdout:\nok\nstderr:\n");
    assert_eq!(t.execution_time_ms, 12);
    let t = test_execution("unit".to_string(), &run(false, 1, "", "bad"), 3);
    assert_eq!(t.status, TestResult::Fail);
    assert_eq!(validation_test_name(0), "validation_1");
    assert_eq!(validation_test_name(41), "validation_42");
}

#[test]
fn solution_files_leave_out_build_artifacts() {
    let listed: Vec<String> = [
        "/workspace/main.py",
        "/workspace/__pycache__/main.cpython-312.pyc",
        "/workspace/util.pyc",
        "/workspace/.git/HEAD",
        "/workspace/node_modules/x/index.js",
        "/workspace/tests/test_main.py",
    ]
    .iter()
    .map(|s| s.to_string())
    .collect();
    assert_eq!(
        solution_files(listed),
        vec!["/workspace/main.py".to_string(), "/workspace/tests/test_main.py".to_string()]
    );
    assert!(is_solution_file("a/.gitignore"));
    assert!(!is_solution_file("a/.git/config"));
}

#[test]
fn workspace_requests() {
    let r = workspace_request("pytest".to_string(), 60);
    assert_eq!(r.working_directory, "/workspace");
    assert_eq!(r.timeout_seconds, Some(60));
    assert!(r.environment.is_empty());
    let r = container_check_request();
    assert_eq!(r.command, "echo 'Hello from container'");
    assert_eq!(r.timeout_seconds, Some(10));
    assert!(container_check_outcome(&run(true, 0, "Hello", "")).is_ok());
    match container_check_outcome(&run(false, 127, "", "not found")) {
        Err(NinjaError::Validation(m)) => assert_eq!(m, "Docker test execution failed: not found"),
        other => panic!("unexpected {:?}", other),
    }
    assert_eq!(result_path("out", "c1"), "out/result_c1.json");
}

#[test]
fn tool_arguments_are_read_from_json() {
    let a = tool_arguments("{\"path\":\"a.py\",\"recursive\":true,\"content\":5}");
    assert_eq!(a.path.as_deref(), Some("a.py"));
    assert_eq!(a.recursive, Some(true));
    assert_eq!(a.content, None);
    assert_eq!(a.command, None);
    let a = tool_arguments("not json");
    assert_eq!(a.path, None);
    assert_eq!(a.recursive, None);
}

#[test]
fn tool_calls_are_planned() {
    match plan_tool_call("read_file", "{\"path\":\"a.py\"}") {
        Ok(ToolAction::ReadFile { path }) => assert_eq!(path, "a.py"),
        other => panic!("unexpected {:?}", other),
    }
    match plan_tool_call("write_file", "{\"path\":\"a.py\",\"content\":\"x=1\"}") {
        Ok(ToolAction::WriteFile { path, content }) => {
            assert_eq!(path, "a.py");
            assert_eq!(content, "x=1");
        }
        other => panic!("unexpected {:?}", other),
    }
    match plan_tool_call("execute_command", "{\"command\":\"ls\"}") {
        Ok(ToolAction::ExecuteCommand { request }) => {
            assert_eq!(request.command, "ls");
            assert_eq!(request.working_directory, "/workspace");
            assert_eq!(request.timeout_seconds, Some(60));
        }
        other => panic!("unexpected {:?}", other),
    }
    match plan_tool_call("execute_command", "{\"command\":\"ls\",\"working_directory\":\"/tmp\"}") {
        Ok(ToolAction::ExecuteCommand { request }) => assert_eq!(request.working_directory, "/tmp"),
        other => panic!("unexpected {:?}", other),
    }
    match plan_tool_call("list_files", "{\"path\":\"/w\"}") {
        Ok(ToolAction::ListFiles { path, recursive }) => {
            assert_eq!(path, "/w");
            assert!(!recursive);
        }
        other => panic!("unexpected {:?}", other),
    }
    match plan_tool_call("delete_everything", "{}") {
        Ok(ToolAction::Unknown { name }) => assert_eq!(name, "delete_everything"),
        other => panic!("unexpected {:?}", other),
    }
}

#[test]
fn tool_calls_missing_members_fail() {
    for (name, args, missing) in [
        ("read_file", "{}", "Missing path parameter"),
        ("write_file", "{\"content\":\"x\"}", "Missing path parameter"),
        ("write_file", "{\"path\":\"a\"}", "Missing content parameter"),
        ("execute_command", "{\"working_directory\":\"/\"}", "Missing command parameter"),
        ("list_files", "{\"recursive\":true}", "Missing path parameter"),
    ] {
        match plan_tool_call(name, args) {
            Err(NinjaError::Execution(m)) => assert_eq!(m, missing),
            other => panic!("unexpected {:?}", other),
        }
    }
}

#[test]
fn tool_replies() {
    assert_eq!(read_file_reply(Ok("body".to_string())), "body");
    assert_eq!(
        read_file_reply(Err(NinjaError::Execution("gone".to_string()))),
        "Error reading file: Execution error: gone"
    );
    let mut m = SolutionMetrics::default();
    assert_eq!(write_file_reply("a.py", &Ok(()), &mut m), "Successfully wrote to file: a.py");
    assert_eq!(m.files_modified, 1);
    assert_eq!(
        write_file_reply("a.py", &Err(NinjaError::Io("full".to_string())), &mut m),
        "Error writing file: IO error: full"
    );
    assert_eq!(m.files_modified, 1);
    assert_eq!(command_reply(&run(false, -3, "o", "e")), "Exit code: -3\nStdout:\no\nStderr:\ne");
    assert_eq!(list_files_reply(Ok(vec!["a".to_string(), "b".to_string()])), "a\nb");
    assert_eq!(
        list_files_reply(Err(NinjaError::Docker("x".to_string()))),
        "Error listing files: Docker error: x"
    );
    assert_eq!(unknown_tool_reply("zap"), "Unknown tool: zap");
    assert_eq!(tool_result_entry("read_file", "body"), "Tool: read_file\nResult: body");
    let msg = tool_results_message(&vec!["A".to_string(), "B".to_string()]);
    assert_eq!(msg.role, "user");
    assert_eq!(msg.content, "Tool execution results:\nA\n\nB");
    count_tool_call(&mut m);
    assert_eq!(m.tool_calls_made, 1);
}

#[test]
fn system_prompt_for_the_sample() {
    let p = agent_system_prompt(&Challenge::sample());
    assert!(p.starts_with("You are a programming assistant that solves coding challenges. Your task is to solve this challenge:\n\nTitle: Fibonacci Sequence Implementation\nDescription: Implement"));
    assert!(p.contains("\nLanguage: python\nDifficulty: Easy\n\nExpected files to create/modify: [\"fibonacci.py\", \"test_fibonacci.py\"]\n\nYou have access to tools"));
    assert!(p.ends_with("run any tests or validation to ensure it works correctly."));
}

#[test]
fn agent_loop_rounds() {
    let c = Challenge::sample();
    let mut s = AgentState::start(&c);
    assert_eq!(s.conversation.len(), 1);
    assert_eq!(s.conversation[0].role, "system");
    assert_eq!(s.conversation[0].content, agent_system_prompt(&c));
    let mut m = SolutionMetrics::default();
    assert!(s.wants_completion());
    let r = response("Let me look.", Some(1), 40);
    s.receive_response(&mut m, &r);
    assert_eq!(m.llm_calls_made, 1);
    assert_eq!(m.tokens_used, 40);
    assert_eq!(s.conversation.len(), 2);
    assert_eq!(s.conversation[1].role, "assistant");
    s.receive_tool_results(&r.content, 1, &vec!["Tool: list_files\nResult: a.py".to_string()]);
    assert_eq!(s.conversation.len(), 3);
    assert_eq!(s.iteration, 1);
    assert!(!s.finished);
    let r = response("", Some(0), 5);
    s.receive_response(&mut m, &r);
    assert_eq!(s.conversation.len(), 3);
    s.receive_tool_results(&r.content, 0, &Vec::new());
    assert_eq!(s.iteration, 2);
    let r = response("All done.", Some(1), 5);
    s.receive_response(&mut m, &r);
    s.receive_tool_results(&r.content, 1, &vec!["e".to_string()]);
    assert!(s.finished);
    assert_eq!(s.iteration, 2);
    assert!(!s.wants_completion());
    assert_eq!(m.llm_calls_made, 3);
    assert_eq!(m.tokens_used, 50);
}

#[test]
fn agent_loop_ends_without_tool_calls() {
    let mut s = AgentState::start(&Challenge::sample());
    let mut m = SolutionMetrics::default();
    s.receive_response(&mut m, &response("thinking", None, 1));
    assert!(s.finished);
    assert!(!s.wants_completion());
}

#[test]
fn agent_loop_is_bounded() {
    let mut s = AgentState::start(&Challenge::sample());
    let mut m = SolutionMetrics::default();
    let mut rounds = 0;
    while s.wants_completion() {
        let r = response("working", Some(1), 1);
        s.receive_response(&mut m, &r);
        s.receive_tool_results(&r.content, 1, &vec!["x".to_string()]);
        rounds += 1;
    }
    assert_eq!(rounds, MAX_AGENT_ITERATIONS);
    assert_eq!(m.llm_calls_made, 20);
}

#[test]
fn workspace_setup_files_are_empty() {
    let ops = setup_file_operations(&vec!["a.py".to_string(), "b.py".to_string()]);
    assert_eq!(ops.len(), 2);
    assert_eq!(ops[1].path, "b.py");
    assert!(ops[0].content.is_empty());
    assert_eq!(ops[0].operation_type, FileOperationType::Create);
}

#[test]
fn attempts_are_concluded() {
    let mut r = ChallengeResult::new_at("c".to_string(), 1);
    record_agent_error(&mut r, &NinjaError::Llm("quota".to_string()));
    assert_eq!(r.status, SolutionStatus::Error);
    assert_eq!(r.error_message.as_deref(), Some("Agent loop error: LLM API error: quota"));
    finish_result_at(
        &mut r,
        vec![execution(TestResult::Pass), execution(TestResult::Fail)],
        vec!["/workspace/a.py".to_string(), "/workspace/a.pyc".to_string()],
        1234,
        1700000000,
    );
    assert_eq!(r.status, SolutionStatus::Error);
    assert_eq!(r.test_results.len(), 2);
    assert_eq!(r.solution_files, vec!["/workspace/a.py".to_string()]);
    assert_eq!(r.metrics.total_execution_time_ms, 1234);
    assert_eq!(r.completed_at, "2023-11-14T22:13:20Z");
    assert_eq!(r.error_message.as_deref(), Some("Agent loop error: LLM API error: quota"));
}

#[test]
fn agent_done_check_ignores_case_beyond_ascii() {
    assert!(should_stop_agent_loop("ÉTAPE FINISHED", 1));
    assert!(!should_stop_agent_loop("ÉTAPE EN COURS", 1));
}

#[test]
fn filtering_solution_files_twice_changes_nothing() {
    let listed: Vec<String> =
        ["a.py", "b.pyc", "c/.git/x", "d.py"].iter().map(|s| s.to_string()).collect();
    let once = solution_files(listed);
    let twice = solution_files(once.clone());
    assert_eq!(once, twice);
    assert_eq!(once, vec!["a.py".to_string(), "d.py".to_string()]);
}

#[test]
fn concluded_attempt_status_comes_from_tests() {
    let mut r = ChallengeResult::new_at("c".to_string(), 0);
    assert_eq!(r.completed_at, "1970-01-01T00:00:00Z");
    finish_result_at(
        &mut r,
        vec![execution(TestResult::Pass), execution(TestResult::Fail)],
        Vec::new(),
        1,
        951782400,
    );
    assert_eq!(r.status, SolutionStatus::Partial);
    assert_eq!(r.completed_at, "2000-02-29T00:00:00Z");
}

use ninja::challenge::{Challenge, TestCase, TestResult as ExpectedResult, TestType};
use ninja::challenge_solver::{
    attempt_completed, clean_generated_code, code_generation_failed, code_generation_prompt,
    generate_basic_test_file, python_environment, setup_request, solution_files, test_execution_failed,
    test_passed, test_request, test_result_from_error, test_result_from_execution, TestResult,
};
use ninja::executor_simple::{ExecutionResult, FileOperationType};
use ninja::error::NinjaError;

fn outcome(name: &str, passed: bool) -> TestResult {
    TestResult {
        test_name: name.to_string(),
        passed,
        output: String::new(),
        error_output: String::new(),
        exit_code: if passed { 0 } else { 1 },
    }
}

#[test]
fn generated_code_is_unfenced_and_trimmed() {
    assert_eq!(clean_generated_code("```python\ndef f():\n    return 1\n```\n"), "def f():\n    return 1");
    assert_eq!(clean_generated_code("```\nx = 1\n```"), "x = 1");
    assert_eq!(clean_generated_code("  x = 2  "), "x = 2");
}

#[test]
fn unclosed_fence_is_still_removed() {
    assert_eq!(clean_generated_code("```python\nx = 1"), "x = 1");
    assert_eq!(clean_generated_code("```\ny = 2\n"), "y = 2");
}

#[test]
fn prompt_describes_the_challenge() {
    let c = Challenge::sample();
    let p = code_generation_prompt(&c);
    assert!(p.starts_with(
        "You are a coding expert. Solve this programming challenge:\n\n**Challenge: Fibonacci Sequence Implementation**\n"
    ));
    assert!(p.contains("\n\nLanguage: python\nDifficulty: Easy\n\nRequirements:\n"));
    assert!(p.ends_with(
        "Expected files: [\"fibonacci.py\", \"test_fibonacci.py\"]\n\nWrite clean, efficient code:"
    ));
}

#[test]
fn test_pass_needs_zero_exit_and_no_failure_marker() {
    assert!(test_passed(0, "2 passed"));
    assert!(!test_passed(1, "2 passed"));
    assert!(!test_passed(0, "1 FAILED"));
}

#[test]
fn test_results_from_runs_and_errors() {
    let run = ExecutionResult {
        exit_code: 0,
        stdout: "ok".to_string(),
        stderr: "warn".to_string(),
        duration_ms: 3,
        container_id: None,
    };
    let t = test_result_from_execution("t1".to_string(), run);
    assert!(t.passed);
    assert_eq!(t.output, "ok");
    assert_eq!(t.error_output, "warn");
    let t = test_result_from_error("t2".to_string(), &NinjaError::Docker("gone".to_string()));
    assert!(!t.passed);
    assert_eq!(t.error_output, "Execution error: Docker error: gone");
    assert_eq!(t.exit_code, -1);
}

#[test]
fn attempt_outcomes() {
    let e = NinjaError::Llm("down".to_string());
    let r = code_generation_failed("c".to_string(), 7, &e);
    assert!(!r.success);
    assert_eq!(r.error_message.unwrap(), "Code generation failed: LLM API error: down");
    let r = test_execution_failed("c".to_string(), "code".to_string(), 9, &e);
    assert_eq!(r.generated_code.unwrap(), "code");
    assert_eq!(r.error_message.unwrap(), "Test execution failed: LLM API error: down");
    let r = attempt_completed("c".to_string(), "code".to_string(), vec![outcome("a", true), outcome("b", true)], 1);
    assert!(r.success);
    assert_eq!(r.total_attempts, 1);
    let r = attempt_completed("c".to_string(), "code".to_string(), vec![outcome("a", true), outcome("b", false)], 1);
    assert!(!r.success);
    let r = attempt_completed("c".to_string(), "code".to_string(), Vec::new(), 1);
    assert!(r.success);
}

#[test]
fn fibonacci_test_file_for_the_sample() {
    let content = generate_basic_test_file(&Challenge::sample());
    assert!(content.starts_with("import pytest\nfrom fibonacci import fibonacci\n\ndef test_basic():"));
    assert!(content.contains("assert result == 832040"));
}

#[test]
fn generic_test_file_for_other_challenges() {
    let mut c = Challenge::sample();
    c.id = "other".to_string();
    c.expected_files = vec!["solver.py".to_string()];
    let content = generate_basic_test_file(&c);
    assert!(content.starts_with("import pytest\nfrom solver import *\n"));
    c.expected_files = Vec::new();
    assert!(generate_basic_test_file(&c).starts_with("import pytest\nfrom solution import *\n"));
}

#[test]
fn solution_files_under_app() {
    let c = Challenge::sample();
    let files = solution_files(&c, "def fibonacci(n): ...");
    assert_eq!(files.len(), 2);
    assert_eq!(files[0].path, "/app/fibonacci.py");
    assert_eq!(files[0].content, "def fibonacci(n): ...");
    assert_eq!(files[0].operation_type, FileOperationType::Create);
    assert_eq!(files[1].path, "/app/test_fibonacci.py");
    assert_eq!(files[1].content, generate_basic_test_file(&c));
}

#[test]
fn requests_run_in_app_with_pythonpath() {
    let env = python_environment();
    assert_eq!(env, vec![("PYTHONPATH".to_string(), "/app".to_string())]);
    let r = setup_request("pip install pytest".to_string());
    assert_eq!(r.working_directory, "/app");
    assert_eq!(r.timeout_seconds, 60);
    assert!(r.files.is_empty());
    let t = TestCase {
        name: "n".to_string(),
        description: "d".to_string(),
        test_type: TestType::FailToPass,
        command: "pytest".to_string(),
        expected_result: ExpectedResult::Pass,
    };
    let r = test_request(&t, Vec::new());
    assert_eq!(r.command, "pytest");
    assert_eq!(r.timeout_seconds, 30);
}

#[test]
fn prompt_lists_files_as_debug_text() {
    let mut c = Challenge::sample();
    c.expected_files = vec!["a \"b\".py".to_string(), "é.py".to_string()];
    let p = code_generation_prompt(&c);
    assert!(p.contains(&format!("Expected files: {:?}", c.expected_files)));
}

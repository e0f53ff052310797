//! The outcome of a single-shot solving attempt: one generated solution,
//! run against every test of a challenge.

use vstd::prelude::*;
use vstd::string::StringExecFns;
use crate::challenge::{distinct_keys, Challenge, TestCase};
use crate::error::NinjaError;
use crate::executor_simple::{ExecutionRequest, ExecutionResult, FileOperation, FileOperationType};
use crate::text::{
    concat, debug_list, debug_string_list, has_prefix, has_substring, has_suffix,
    lemma_infix_substring, replace,
    replace_all, str_contains, strip_prefix, strip_prefix_spec, strip_suffix, strip_suffix_spec,
    texts_of, trim, trim_spec,
};

verus! {

/// The outcome of one attempt to solve a challenge with generated code.
#[derive(Debug)]
pub struct SolveResult {
    pub challenge_id: String,
    pub success: bool,
    pub generated_code: Option<String>,
    pub test_results: Vec<TestResult>,
    pub total_attempts: u32,
    pub duration_ms: u64,
    pub error_message: Option<String>,
}

/// The outcome of running one test command against a generated solution.
#[derive(Debug)]
pub struct TestResult {
    pub test_name: String,
    pub passed: bool,
    pub output: String,
    pub error_output: String,
    pub exit_code: i32,
}

/// The prompt asking the model for a solution to `c`.
pub open spec fn code_prompt_spec(c: Challenge) -> Seq<char> {
    "You are a coding expert. Solve this programming challenge:\n\n**Challenge: "@ + c.title@
        + "**\n"@ + c.description@ + "\n\nLanguage: "@ + c.language@ + "\nDifficulty: "@
        + c.difficulty.name_spec() + PROMPT_REQUIREMENTS@ + debug_list(texts_of(c.expected_files@))
        + "\n\nWrite clean, efficient code:"@
}

/// The requirements part of the code prompt, up to the list of files.
pub const PROMPT_REQUIREMENTS: &'static str = "\n\nRequirements:\n- Write complete, working code that solves the problem\n- Include all necessary imports and proper function definitions\n- Make sure the code is syntactically correct and will pass the tests\n- For the Fibonacci challenge, create a function called 'fibonacci' that takes n as parameter\n- Only respond with the code, no explanations or markdown formatting\n\nExpected files: ";

/// The prompt asking the model for a solution tells it the challenge: its
/// title, its description and its language each occur in the prompt.
pub proof fn lemma_code_prompt_mentions_challenge(c: Challenge)
    ensures
        has_substring(code_prompt_spec(c), c.title@),
        has_substring(code_prompt_spec(c), c.description@),
        has_substring(code_prompt_spec(c), c.language@),
{
    let intro: Seq<char> =
        "You are a coding expert. Solve this programming challenge:\n\n**Challenge: "@;
    let after_lang: Seq<char> = "\nDifficulty: "@ + c.difficulty.name_spec() + PROMPT_REQUIREMENTS@
        + debug_list(texts_of(c.expected_files@)) + "\n\nWrite clean, efficient code:"@;
    let after_desc: Seq<char> = "\n\nLanguage: "@ + c.language@ + after_lang;
    let after_title: Seq<char> = "**\n"@ + c.description@ + after_desc;
    let before_desc: Seq<char> = intro + c.title@ + "**\n"@;
    let before_lang: Seq<char> = before_desc + c.description@ + "\n\nLanguage: "@;
    assert(code_prompt_spec(c) =~= intro + c.title@ + after_title);
    assert(code_prompt_spec(c) =~= before_desc + c.description@ + after_desc);
    assert(code_prompt_spec(c) =~= before_lang + c.language@ + after_lang);
    lemma_infix_substring(intro, c.title@, after_title);
    lemma_infix_substring(before_desc, c.description@, after_desc);
    lemma_infix_substring(before_lang, c.language@, after_lang);
}

/// The prompt asking the model for a solution: the challenge's title,
/// description, language and difficulty, the requirements on the answer,
/// and the files expected.
pub fn code_generation_prompt(c: &Challenge) -> (p: String)
    ensures
        p@ == code_prompt_spec(*c),
        has_substring(p@, c.title@),
        has_substring(p@, c.description@),
        has_substring(p@, c.language@),
{
    proof {
        lemma_code_prompt_mentions_challenge(*c);
    }
    let mut p = String::from_str(
        "You are a coding expert. Solve this programming challenge:\n\n**Challenge: ",
    );
    p.append(c.title.as_str());
    p.append("**\n");
    p.append(c.description.as_str());
    p.append("\n\nLanguage: ");
    p.append(c.language.as_str());
    p.append("\nDifficulty: ");
    let d = c.difficulty.name();
    p.append(d.as_str());
    p.append(PROMPT_REQUIREMENTS);
    let files = debug_string_list(&c.expected_files);
    p.append(files.as_str());
    p.append("\n\nWrite clean, efficient code:");
    p
}

/// The code in a model's answer: the answer trimmed, without a leading
/// ```` ```python ```` or ```` ``` ```` fence; then a trailing ```` ``` ````
/// fence is removed when there is one; the result is trimmed again.
pub open spec fn cleaned_code_spec(answer: Seq<char>) -> Seq<char> {
    let t = trim_spec(answer);
    let unfenced = match strip_prefix_spec(t, "```python"@) {
        Some(s) => s,
        None => match strip_prefix_spec(t, "```"@) {
            Some(s) => s,
            None => t,
        },
    };
    let body = match strip_suffix_spec(unfenced, "```"@) {
        Some(s) => s,
        None => unfenced,
    };
    trim_spec(body)
}

/// Strips markdown fences and white space from a model's answer.
pub fn clean_generated_code(answer: &str) -> (code: String)
    ensures
        code@ == cleaned_code_spec(answer@),
{
    let t = trim(answer);
    let unfenced = match strip_prefix(t.as_str(), "```python") {
        Some(s) => s,
        None => match strip_prefix(t.as_str(), "```") {
            Some(s) => s,
            None => t.clone(),
        },
    };
    let body = match strip_suffix(unfenced.as_str(), "```") {
        Some(s) => s,
        None => unfenced,
    };
    trim(body.as_str())
}

/// Whether a test run passed: it exited with 0 and its output does not
/// report `FAILED`.
pub fn test_passed(exit_code: i32, stdout: &str) -> (passed: bool)
    ensures
        passed == (exit_code == 0 && !has_substring(stdout@, "FAILED"@)),
{
    exit_code == 0 && !str_contains(stdout, "FAILED")
}

/// The result of a test whose command ran.
pub fn test_result_from_execution(test_name: String, result: ExecutionResult) -> (t: TestResult)
    ensures
        t.test_name == test_name,
        t.passed == (result.exit_code == 0 && !has_substring(result.stdout@, "FAILED"@)),
        t.output == result.stdout,
        t.error_output == result.stderr,
        t.exit_code == result.exit_code,
{
    let passed = test_passed(result.exit_code, result.stdout.as_str());
    TestResult {
        test_name,
        passed,
        output: result.stdout,
        error_output: result.stderr,
        exit_code: result.exit_code,
    }
}

/// The result of a test whose command could not be run.
pub fn test_result_from_error(test_name: String, error: &NinjaError) -> (t: TestResult)
    ensures
        t.test_name == test_name,
        !t.passed,
        t.output@.len() == 0,
        t.error_output@ == "Execution error: "@ + error.message_spec(),
        t.exit_code == -1,
{
    let m = error.message();
    TestResult {
        test_name,
        passed: false,
        output: String::new(),
        error_output: concat("Execution error: ", m.as_str()),
        exit_code: -1,
    }
}

/// Every test passed (true when there are none).
pub open spec fn all_passed(tests: Seq<TestResult>) -> bool {
    forall|i: int| 0 <= i < tests.len() ==> #[trigger] tests[i].passed
}

/// The result of an attempt whose code generation failed.
pub fn code_generation_failed(challenge_id: String, duration_ms: u64, error: &NinjaError) -> (r:
    SolveResult)
    ensures
        r.challenge_id == challenge_id,
        !r.success,
        r.generated_code is None,
        r.test_results@.len() == 0,
        r.total_attempts == 1,
        r.duration_ms == duration_ms,
        r.error_message matches Some(m) && m@ == "Code generation failed: "@ + error.message_spec(),
{
    let m = error.message();
    SolveResult {
        challenge_id,
        success: false,
        generated_code: None,
        test_results: Vec::new(),
        total_attempts: 1,
        duration_ms,
        error_message: Some(concat("Code generation failed: ", m.as_str())),
    }
}

/// The result of an attempt whose tests could not be run.
pub fn test_execution_failed(
    challenge_id: String,
    code: String,
    duration_ms: u64,
    error: &NinjaError,
) -> (r: SolveResult)
    ensures
        r.challenge_id == challenge_id,
        !r.success,
        r.generated_code == Some(code),
        r.test_results@.len() == 0,
        r.total_attempts == 1,
        r.duration_ms == duration_ms,
        r.error_message matches Some(m) && m@ == "Test execution failed: "@ + error.message_spec(),
{
    let m = error.message();
    SolveResult {
        challenge_id,
        success: false,
        generated_code: Some(code),
        test_results: Vec::new(),
        total_attempts: 1,
        duration_ms,
        error_message: Some(concat("Test execution failed: ", m.as_str())),
    }
}

/// The result of an attempt whose tests ran: it succeeded when every test
/// passed.
pub fn attempt_completed(
    challenge_id: String,
    code: String,
    test_results: Vec<TestResult>,
    duration_ms: u64,
) -> (r: SolveResult)
    ensures
        r.challenge_id == challenge_id,
        r.success == all_passed(test_results@),
        r.generated_code == Some(code),
        r.test_results == test_results,
        r.total_attempts == 1,
        r.duration_ms == duration_ms,
        r.error_message is None,
{
    let mut all = true;
    let mut i: usize = 0;
    while i < test_results.len()
        invariant
            i <= test_results@.len(),
            all == (forall|k: int| 0 <= k < i ==> #[trigger] test_results@[k].passed),
        decreases test_results@.len() - i,
    {
        if !test_results[i].passed {
            all = false;
        }
        i = i + 1;
    }
    SolveResult {
        challenge_id,
        success: all,
        generated_code: Some(code),
        test_results,
        total_attempts: 1,
        duration_ms,
        error_message: None,
    }
}

/// The module the tests import: the first expected file without `.py`,
/// or `solution`.
pub open spec fn module_name_spec(c: Challenge) -> Seq<char> {
    if c.expected_files@.len() > 0 {
        replace_all(c.expected_files@[0]@, ".py"@, ""@)
    } else {
        "solution"@
    }
}

pub const FIBONACCI_TESTS_HEAD: &'static str = "import pytest\nfrom ";

pub const FIBONACCI_TESTS_TAIL: &'static str = " import fibonacci\n\ndef test_basic():\n    \"\"\"Test basic Fibonacci sequence values\"\"\"\n    assert fibonacci(0) == 0\n    assert fibonacci(1) == 1\n    assert fibonacci(2) == 1\n    assert fibonacci(3) == 2\n    assert fibonacci(4) == 3\n    assert fibonacci(5) == 5\n    assert fibonacci(6) == 8\n    assert fibonacci(7) == 13\n\ndef test_performance():\n    \"\"\"Ensure the implementation is efficient for large numbers\"\"\"\n    # Test that we can compute larger Fibonacci numbers quickly\n    result = fibonacci(30)\n    assert result == 832040\n\n    # Test edge cases\n    assert fibonacci(10) == 55\n    assert fibonacci(15) == 610\n";

pub const GENERIC_TESTS_HEAD: &'static str = "import pytest\nfrom ";

pub const GENERIC_TESTS_TAIL: &'static str = " import *\n\ndef test_basic():\n    \"\"\"Basic test for the challenge\"\"\"\n    # TODO: Generate proper tests based on challenge description\n    assert True  # Placeholder - needs proper test implementation\n";

/// The pytest file written beside a solution: the Fibonacci tests for the
/// sample challenge, a minimal test for any other.
pub open spec fn basic_test_file_spec(c: Challenge) -> Seq<char> {
    if c.id@ == "ninja-sample-001"@ {
        FIBONACCI_TESTS_HEAD@ + module_name_spec(c) + FIBONACCI_TESTS_TAIL@
    } else {
        GENERIC_TESTS_HEAD@ + module_name_spec(c) + GENERIC_TESTS_TAIL@
    }
}

/// Writes the pytest file for a challenge (see `basic_test_file_spec`).
pub fn generate_basic_test_file(c: &Challenge) -> (content: String)
    ensures
        content@ == basic_test_file_spec(*c),
{
    proof {
        reveal_strlit(".py");
    }
    let module = if c.expected_files.len() > 0 {
        replace(c.expected_files[0].as_str(), ".py", "")
    } else {
        String::from_str("solution")
    };
    let sample = String::from_str("ninja-sample-001");
    let (head, tail) = if c.id == sample {
        (FIBONACCI_TESTS_HEAD, FIBONACCI_TESTS_TAIL)
    } else {
        (GENERIC_TESTS_HEAD, GENERIC_TESTS_TAIL)
    };
    let mut content = String::from_str(head);
    content.append(module.as_str());
    content.append(tail);
    content
}

/// The files written before the first test: the solution as the first
/// expected file, and the pytest file as the second, both under `/app`.
pub fn solution_files(c: &Challenge, code: &str) -> (files: Vec<FileOperation>)
    ensures
        files@.len() == if c.expected_files@.len() == 0 {
            0int
        } else if c.expected_files@.len() == 1 {
            1int
        } else {
            2int
        },
        files@.len() > 0 ==> files@[0].path@ == "/app/"@ + c.expected_files@[0]@
            && files@[0].content@ == code@ && files@[0].operation_type == FileOperationType::Create,
        files@.len() > 1 ==> files@[1].path@ == "/app/"@ + c.expected_files@[1]@
            && files@[1].content@ == basic_test_file_spec(*c) && files@[1].operation_type
            == FileOperationType::Create,
{
    let mut files: Vec<FileOperation> = Vec::new();
    if c.expected_files.len() > 0 {
        files.push(
            FileOperation {
                path: concat("/app/", c.expected_files[0].as_str()),
                content: String::from_str(code),
                operation_type: FileOperationType::Create,
            },
        );
    }
    if c.expected_files.len() > 1 {
        files.push(
            FileOperation {
                path: concat("/app/", c.expected_files[1].as_str()),
                content: generate_basic_test_file(c),
                operation_type: FileOperationType::Create,
            },
        );
    }
    files
}

/// The environment of every command: `PYTHONPATH=/app`.
pub fn python_environment() -> (env: Vec<(String, String)>)
    ensures
        env@.len() == 1,
        env@[0].0@ == "PYTHONPATH"@,
        env@[0].1@ == "/app"@,
        distinct_keys(env@),
{
    let mut env: Vec<(String, String)> = Vec::new();
    env.push((String::from_str("PYTHONPATH"), String::from_str("/app")));
    env
}

/// The request that runs a setup command: in `/app`, no files, a one
/// minute limit.
pub fn setup_request(command: String) -> (r: ExecutionRequest)
    ensures
        r.command == command,
        r.working_directory@ == "/app"@,
        r.files@.len() == 0,
        r.environment@.len() == 1 && r.environment@[0].0@ == "PYTHONPATH"@
            && r.environment@[0].1@ == "/app"@,
        distinct_keys(r.environment@),
        r.timeout_seconds == 60,
{
    ExecutionRequest {
        command,
        working_directory: String::from_str("/app"),
        files: Vec::new(),
        environment: python_environment(),
        timeout_seconds: 60,
    }
}

/// The request that runs a test: its command in `/app` with the given
/// files (the solution files for the first test, none after), a half
/// minute limit.
pub fn test_request(test: &TestCase, files: Vec<FileOperation>) -> (r: ExecutionRequest)
    ensures
        r.command@ == test.command@,
        r.working_directory@ == "/app"@,
        r.files == files,
        r.environment@.len() == 1 && r.environment@[0].0@ == "PYTHONPATH"@
            && r.environment@[0].1@ == "/app"@,
        distinct_keys(r.environment@),
        r.timeout_seconds == 30,
{
    ExecutionRequest {
        command: test.command.clone(),
        working_directory: String::from_str("/app"),
        files,
        environment: python_environment(),
        timeout_seconds: 30,
    }
}

} // verus!

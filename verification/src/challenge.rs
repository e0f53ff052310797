//! Coding challenges in the SWE-bench style, and the record of one attempt
//! to solve them.

use vstd::prelude::*;
use vstd::string::StringExecFns;
use crate::clock::{iso8601_utc, is_iso8601_of, unix_time_secs};

verus! {

/// A coding challenge: what to build, how to set it up and how to test it.
///
/// `metadata` holds key/value pairs in insertion order; the challenges this
/// library builds hold each key once (`distinct_keys`).
#[derive(Debug)]
pub struct Challenge {
    pub id: String,
    pub title: String,
    pub description: String,
    pub repository: Option<String>,
    pub language: String,
    pub difficulty: DifficultyLevel,
    pub tests: Vec<TestCase>,
    pub setup_commands: Vec<String>,
    pub validation_commands: Vec<String>,
    pub expected_files: Vec<String>,
    pub metadata: Vec<(String, String)>,
    /// ISO 8601 timestamp
    pub created_at: String,
}

#[derive(Clone, Copy, Debug, PartialEq, Eq, Structural)]
pub enum DifficultyLevel {
    Easy,
    Medium,
    Hard,
}

#[derive(Debug)]
pub struct TestCase {
    pub name: String,
    pub description: String,
    pub test_type: TestType,
    pub command: String,
    pub expected_result: TestResult,
}

#[derive(Clone, Copy, Debug, PartialEq, Eq, Structural)]
pub enum TestType {
    /// Must fail before the fix and pass after it.
    FailToPass,
    /// Must pass both before and after the fix (a regression test).
    PassToPass,
    /// A general validation test.
    Validation,
}

#[derive(Clone, Copy, Debug, PartialEq, Eq, Structural)]
pub enum TestResult {
    Pass,
    Fail,
    Any,
}

/// The outcome of one attempt to solve a challenge.
#[derive(Debug)]
pub struct ChallengeResult {
    pub challenge_id: String,
    pub status: SolutionStatus,
    pub solution_files: Vec<String>,
    pub execution_log: String,
    pub test_results: Vec<TestExecution>,
    pub metrics: SolutionMetrics,
    pub error_message: Option<String>,
    /// ISO 8601 timestamp, in UTC.
    pub completed_at: String,
}

#[derive(Clone, Copy, Debug, PartialEq, Eq, Structural)]
pub enum SolutionStatus {
    /// All tests pass.
    Solved,
    /// Some tests pass.
    Partial,
    /// No test passes, or execution failed.
    Failed,
    /// The time limit was exceeded.
    Timeout,
    /// A system error occurred during execution.
    Error,
}

#[derive(Debug)]
pub struct TestExecution {
    pub test_name: String,
    pub status: TestResult,
    pub output: String,
    pub execution_time_ms: u64,
}

#[derive(Clone, Copy, Debug, PartialEq, Eq, Structural)]
pub struct SolutionMetrics {
    pub total_execution_time_ms: u64,
    pub llm_calls_made: u32,
    pub tokens_used: u32,
    pub tool_calls_made: u32,
    pub files_created: u32,
    pub files_modified: u32,
}

impl DifficultyLevel {
    /// The level's name, as written in challenge files.
    pub open spec fn name_spec(self) -> Seq<char> {
        match self {
            DifficultyLevel::Easy => "Easy"@,
            DifficultyLevel::Medium => "Medium"@,
            DifficultyLevel::Hard => "Hard"@,
        }
    }

    /// The level's name: `Easy`, `Medium` or `Hard`.
    pub fn name(&self) -> (r: String)
        ensures
            r@ == self.name_spec(),
    {
        match self {
            DifficultyLevel::Easy => String::from_str("Easy"),
            DifficultyLevel::Medium => String::from_str("Medium"),
            DifficultyLevel::Hard => String::from_str("Hard"),
        }
    }
}

/// No key occurs twice in a list of key/value pairs.
pub open spec fn distinct_keys(entries: Seq<(String, String)>) -> bool {
    forall|i: int, j: int| 0 <= i < j < entries.len() ==> entries[i].0@ != entries[j].0@
}

/// Some test of the list is a fail-to-pass test.
pub open spec fn has_fail_to_pass(tests: Seq<TestCase>) -> bool {
    exists|i: int| 0 <= i < tests.len() && tests[i].test_type == TestType::FailToPass
}

/// What `Challenge::validate` answers for a challenge.
pub open spec fn validation_outcome(c: Challenge) -> Result<(), Seq<char>> {
    if c.id@.len() == 0 {
        Err("Challenge ID cannot be empty"@)
    } else if c.tests@.len() == 0 {
        Err("Challenge must have at least one test"@)
    } else if !has_fail_to_pass(c.tests@) {
        Err("Challenge must have at least one fail-to-pass test"@)
    } else {
        Ok(())
    }
}

/// How validation answers, case by case: a challenge with an id and a
/// fail-to-pass test anywhere among its tests is valid; one with an id and
/// tests of which none is fail-to-pass is refused for that, and one with an
/// id and no tests for having none; one without an id is refused for the
/// id, whatever its tests.
pub proof fn lemma_validation_cases(c: Challenge)
    ensures
        c.id@.len() > 0 && (exists|i: int|
            0 <= i < c.tests@.len() && #[trigger] c.tests@[i].test_type == TestType::FailToPass)
            ==> validation_outcome(c) == Ok::<(), Seq<char>>(()),
        c.id@.len() > 0 && c.tests@.len() > 0 && (forall|i: int|
            0 <= i < c.tests@.len() ==> #[trigger] c.tests@[i].test_type != TestType::FailToPass)
            ==> validation_outcome(c) == Err::<(), Seq<char>>(
            "Challenge must have at least one fail-to-pass test"@,
        ),
        c.id@.len() > 0 && c.tests@.len() == 0 ==> validation_outcome(c) == Err::<(), Seq<char>>(
            "Challenge must have at least one test"@,
        ),
        c.id@.len() == 0 ==> validation_outcome(c) == Err::<(), Seq<char>>(
            "Challenge ID cannot be empty"@,
        ),
{
}

/// Validation does not depend on the order of the tests: two challenges with
/// the same id whose tests are the same up to order are answered alike.
pub proof fn lemma_validation_order_independent(c1: Challenge, c2: Challenge)
    requires
        c1.id@ == c2.id@,
        c1.tests@.to_multiset() == c2.tests@.to_multiset(),
    ensures
        validation_outcome(c1) == validation_outcome(c2),
{
    broadcast use vstd::seq_lib::group_to_multiset_ensures;

    let s1 = c1.tests@;
    let s2 = c2.tests@;
    assert(s1.len() == s2.len()) by {
        vstd::seq_lib::to_multiset_len(s1);
        vstd::seq_lib::to_multiset_len(s2);
    }
    if has_fail_to_pass(s1) {
        let i = choose|i: int| 0 <= i < s1.len() && s1[i].test_type == TestType::FailToPass;
        assert(s1.contains(s1[i]));
        assert(s1.to_multiset().count(s1[i]) > 0);
        assert(s2.to_multiset().count(s1[i]) > 0);
        assert(s2.contains(s1[i]));
        let j = choose|j: int| 0 <= j < s2.len() && s2[j] == s1[i];
        assert(s2[j].test_type == TestType::FailToPass);
        assert(has_fail_to_pass(s2));
    }
    if has_fail_to_pass(s2) {
        let i = choose|i: int| 0 <= i < s2.len() && s2[i].test_type == TestType::FailToPass;
        assert(s2.contains(s2[i]));
        assert(s2.to_multiset().count(s2[i]) > 0);
        assert(s1.to_multiset().count(s2[i]) > 0);
        assert(s1.contains(s2[i]));
        let j = choose|j: int| 0 <= j < s1.len() && s1[j] == s2[i];
        assert(s1[j].test_type == TestType::FailToPass);
        assert(has_fail_to_pass(s1));
    }
}

impl Challenge {
    /// A sample challenge for demonstration: the Fibonacci exercise.
    pub fn sample() -> (c: Self)
        ensures
            c.id@ == "ninja-sample-001"@,
            c.title@ == "Fibonacci Sequence Implementation"@,
            c.description@
                == "Implement a function that calculates the nth Fibonacci number efficiently using dynamic programming."@,
            c.repository matches Some(r) && r@ == "https://github.com/ninja-harness/challenges"@,
            c.language@ == "python"@,
            c.difficulty == DifficultyLevel::Easy,
            c.tests@.len() == 2,
            c.tests@[0].name@ == "test_fibonacci_basic"@,
            c.tests@[0].description@ == "Test basic Fibonacci sequence values"@,
            c.tests@[0].test_type == TestType::FailToPass,
            c.tests@[0].command@ == "python -m pytest test_fibonacci.py::test_basic -v"@,
            c.tests@[0].expected_result == TestResult::Pass,
            c.tests@[1].name@ == "test_fibonacci_performance"@,
            c.tests@[1].description@ == "Ensure the implementation is efficient for large numbers"@,
            c.tests@[1].test_type == TestType::Validation,
            c.tests@[1].command@ == "python -m pytest test_fibonacci.py::test_performance -v"@,
            c.tests@[1].expected_result == TestResult::Pass,
            c.setup_commands@.len() == 2,
            c.setup_commands@[0]@ == "pip install pytest"@,
            c.setup_commands@[1]@ == "pip install numpy"@,
            c.validation_commands@.len() == 1,
            c.validation_commands@[0]@
                == "python -c \"import fibonacci; print('Module imported successfully')\""@,
            c.expected_files@.len() == 2,
            c.expected_files@[0]@ == "fibonacci.py"@,
            c.expected_files@[1]@ == "test_fibonacci.py"@,
            c.metadata@.len() == 2,
            c.metadata@[0].0@ == "author"@,
            c.metadata@[0].1@ == "Ninja Harness"@,
            c.metadata@[1].0@ == "category"@,
            c.metadata@[1].1@ == "algorithms"@,
            c.created_at@ == "2026-03-10T09:00:00Z"@,
            distinct_keys(c.metadata@),
    {
        proof {
            reveal_strlit("author");
            reveal_strlit("category");
        }
        let mut metadata: Vec<(String, String)> = Vec::new();
        metadata.push((String::from_str("author"), String::from_str("Ninja Harness")));
        metadata.push((String::from_str("category"), String::from_str("algorithms")));

        let mut tests: Vec<TestCase> = Vec::new();
        tests.push(
            TestCase {
                name: String::from_str("test_fibonacci_basic"),
                description: String::from_str("Test basic Fibonacci sequence values"),
                test_type: TestType::FailToPass,
                command: String::from_str("python -m pytest test_fibonacci.py::test_basic -v"),
                expected_result: TestResult::Pass,
            },
        );
        tests.push(
            TestCase {
                name: String::from_str("test_fibonacci_performance"),
                description: String::from_str(
                    "Ensure the implementation is efficient for large numbers",
                ),
                test_type: TestType::Validation,
                command: String::from_str(
                    "python -m pytest test_fibonacci.py::test_performance -v",
                ),
                expected_result: TestResult::Pass,
            },
        );

        let mut setup_commands: Vec<String> = Vec::new();
        setup_commands.push(String::from_str("pip install pytest"));
        setup_commands.push(String::from_str("pip install numpy"));

        let mut validation_commands: Vec<String> = Vec::new();
        validation_commands.push(
            String::from_str(
                "python -c \"import fibonacci; print('Module imported successfully')\"",
            ),
        );

        let mut expected_files: Vec<String> = Vec::new();
        expected_files.push(String::from_str("fibonacci.py"));
        expected_files.push(String::from_str("test_fibonacci.py"));

        Challenge {
            id: String::from_str("ninja-sample-001"),
            title: String::from_str("Fibonacci Sequence Implementation"),
            description: String::from_str(
                "Implement a function that calculates the nth Fibonacci number efficiently using dynamic programming.",
            ),
            repository: Some(String::from_str("https://github.com/ninja-harness/challenges")),
            language: String::from_str("python"),
            difficulty: DifficultyLevel::Easy,
            tests,
            setup_commands,
            validation_commands,
            expected_files,
            metadata,
            created_at: String::from_str("2026-03-10T09:00:00Z"),
        }
    }

    /// Checks the challenge's structure: it needs an id, at least one test,
    /// and at least one fail-to-pass test, checked in that order.
    pub fn validate(&self) -> (r: Result<(), String>)
        ensures
            r is Ok <==> validation_outcome(*self) is Ok,
            r matches Err(m) ==> validation_outcome(*self) == Err::<(), Seq<char>>(m@),
    {
        if self.id.as_str().is_empty() {
            return Err(String::from_str("Challenge ID cannot be empty"));
        }
        if self.tests.len() == 0 {
            return Err(String::from_str("Challenge must have at least one test"));
        }
        let mut i: usize = 0;
        while i < self.tests.len()
            invariant
                i <= self.tests@.len(),
                self.id@.len() != 0,
                forall|k: int| 0 <= k < i ==> self.tests@[k].test_type != TestType::FailToPass,
            decreases self.tests@.len() - i,
        {
            if self.tests[i].test_type == TestType::FailToPass {
                assert(self.tests@[i as int].test_type == TestType::FailToPass);
                return Ok(());
            }
            i = i + 1;
        }
        Err(String::from_str("Challenge must have at least one fail-to-pass test"))
    }
}

impl Default for SolutionMetrics {
    fn default() -> (m: Self)
        ensures
            m.total_execution_time_ms == 0,
            m.llm_calls_made == 0,
            m.tokens_used == 0,
            m.tool_calls_made == 0,
            m.files_created == 0,
            m.files_modified == 0,
    {
        SolutionMetrics {
            total_execution_time_ms: 0,
            llm_calls_made: 0,
            tokens_used: 0,
            tool_calls_made: 0,
            files_created: 0,
            files_modified: 0,
        }
    }
}

impl ChallengeResult {
    /// A fresh result for `challenge_id`, marked failed until the attempt is
    /// scored, completed `completed_at_secs` seconds after the Unix epoch.
    pub fn new_at(challenge_id: String, completed_at_secs: u64) -> (r: Self)
        ensures
            r.challenge_id == challenge_id,
            r.status == SolutionStatus::Failed,
            r.solution_files@.len() == 0,
            r.execution_log@.len() == 0,
            r.test_results@.len() == 0,
            r.metrics == SolutionMetrics::default_spec(),
            r.error_message is None,
            is_iso8601_of(r.completed_at@, completed_at_secs as nat),
    {
        ChallengeResult {
            challenge_id,
            status: SolutionStatus::Failed,
            solution_files: Vec::new(),
            execution_log: String::new(),
            test_results: Vec::new(),
            metrics: SolutionMetrics::default(),
            error_message: None,
            completed_at: iso8601_utc(completed_at_secs),
        }
    }

    /// A fresh result for `challenge_id`, stamped with the current time.
    pub fn new(challenge_id: String) -> (r: Self)
        ensures
            r.challenge_id == challenge_id,
            r.status == SolutionStatus::Failed,
            r.solution_files@.len() == 0,
            r.execution_log@.len() == 0,
            r.test_results@.len() == 0,
            r.metrics == SolutionMetrics::default_spec(),
            r.error_message is None,
            exists|t: u64| is_iso8601_of(r.completed_at@, t as nat),
    {
        let now = unix_time_secs();
        ChallengeResult::new_at(challenge_id, now)
    }
}

impl SolutionMetrics {
    /// All counters at zero.
    pub open spec fn default_spec() -> SolutionMetrics {
        SolutionMetrics {
            total_execution_time_ms: 0,
            llm_calls_made: 0,
            tokens_used: 0,
            tool_calls_made: 0,
            files_created: 0,
            files_modified: 0,
        }
    }
}

} // verus!

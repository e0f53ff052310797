use ninja::clock::{iso8601_utc, rfc3339_of_reading, EPOCH_RFC3339};
use ninja::challenge::{
    Challenge, ChallengeResult, DifficultyLevel, SolutionMetrics, SolutionStatus, TestCase,
    TestResult, TestType,
};
use ninja::error::NinjaError;

fn test_case(test_type: TestType) -> TestCase {
    TestCase {
        name: "t".to_string(),
        description: "d".to_string(),
        test_type,
        command: "true".to_string(),
        expected_result: TestResult::Pass,
    }
}

#[test]
fn sample_challenge_is_the_fibonacci_exercise() {
    let c = Challenge::sample();
    assert_eq!(c.id, "ninja-sample-001");
    assert_eq!(c.title, "Fibonacci Sequence Implementation");
    assert_eq!(c.language, "python");
    assert_eq!(c.difficulty, DifficultyLevel::Easy);
    assert_eq!(c.tests.len(), 2);
    assert_eq!(c.tests[0].test_type, TestType::FailToPass);
    assert_eq!(c.tests[1].test_type, TestType::Validation);
    assert_eq!(c.setup_commands, vec!["pip install pytest", "pip install numpy"]);
    assert_eq!(c.expected_files, vec!["fibonacci.py", "test_fibonacci.py"]);
    assert_eq!(c.metadata.len(), 2);
    assert_eq!(c.created_at, "2026-03-10T09:00:00Z");
}

#[test]
fn sample_challenge_validates() {
    assert_eq!(Challenge::sample().validate(), Ok(()));
}

#[test]
fn validate_rejects_empty_id() {
    let mut c = Challenge::sample();
    c.id = String::new();
    assert_eq!(c.validate(), Err("Challenge ID cannot be empty".to_string()));
}

#[test]
fn validate_rejects_challenge_without_tests() {
    let mut c = Challenge::sample();
    c.tests = Vec::new();
    assert_eq!(c.validate(), Err("Challenge must have at least one test".to_string()));
}

#[test]
fn validate_rejects_challenge_without_fail_to_pass_test() {
    let mut c = Challenge::sample();
    c.tests = vec![test_case(TestType::PassToPass), test_case(TestType::Validation)];
    assert_eq!(
        c.validate(),
        Err("Challenge must have at least one fail-to-pass test".to_string())
    );
}

#[test]
fn validate_checks_id_before_tests() {
    let mut c = Challenge::sample();
    c.id = String::new();
    c.tests = Vec::new();
    assert_eq!(c.validate(), Err("Challenge ID cannot be empty".to_string()));
}

#[test]
fn difficulty_names() {
    assert_eq!(DifficultyLevel::Easy.name(), "Easy");
    assert_eq!(DifficultyLevel::Medium.name(), "Medium");
    assert_eq!(DifficultyLevel::Hard.name(), "Hard");
}

#[test]
fn new_result_at_given_time() {
    let r = ChallengeResult::new_at("abc".to_string(), 1700000000);
    assert_eq!(r.challenge_id, "abc");
    assert_eq!(r.status, SolutionStatus::Failed);
    assert!(r.solution_files.is_empty());
    assert!(r.execution_log.is_empty());
    assert!(r.test_results.is_empty());
    assert_eq!(r.metrics, SolutionMetrics::default());
    assert!(r.error_message.is_none());
    assert_eq!(r.completed_at, "2023-11-14T22:13:20Z");
}

#[test]
fn new_result_is_stamped_in_iso8601() {
    let r = ChallengeResult::new("x".to_string());
    assert_eq!(r.challenge_id, "x");
    assert_eq!(r.status, SolutionStatus::Failed);
    let t = r.completed_at.as_bytes();
    assert_eq!(t.len(), 20);
    assert_eq!((t[4], t[7], t[10], t[13], t[16], t[19]), (b'-', b'-', b'T', b':', b':', b'Z'));
    assert!(r.completed_at.as_str() > "2024");
}

#[test]
fn default_metrics_are_zero() {
    let m = SolutionMetrics::default();
    assert_eq!(m.total_execution_time_ms, 0);
    assert_eq!(m.llm_calls_made, 0);
    assert_eq!(m.tokens_used, 0);
    assert_eq!(m.tool_calls_made, 0);
    assert_eq!(m.files_created, 0);
    assert_eq!(m.files_modified, 0);
}

#[test]
fn error_messages_carry_their_kind() {
    assert_eq!(NinjaError::Config("c".to_string()).message(), "Configuration error: c");
    assert_eq!(NinjaError::Llm("l".to_string()).message(), "LLM API error: l");
    assert_eq!(NinjaError::Docker("d".to_string()).message(), "Docker error: d");
    assert_eq!(
        NinjaError::ChallengeParse("p".to_string()).message(),
        "Challenge parsing error: p"
    );
    assert_eq!(NinjaError::Execution("e".to_string()).message(), "Execution error: e");
    assert_eq!(NinjaError::Validation("v".to_string()).message(), "Validation error: v");
    assert_eq!(NinjaError::Io("i".to_string()).message(), "IO error: i");
    assert_eq!(NinjaError::Json("j".to_string()).message(), "JSON parsing error: j");
    assert_eq!(NinjaError::Serialization("s".to_string()).message(), "Serialization error: s");
    assert_eq!(NinjaError::Unknown("u".to_string()).message(), "Unknown error: u");
}

#[test]
fn http_client_errors_are_unknown() {
    let e = NinjaError::http_client("boom".to_string());
    assert!(matches!(e, NinjaError::Unknown(ref m) if m == "boom"));
}

#[test]
fn iso8601_timestamps() {
    assert_eq!(iso8601_utc(0), "1970-01-01T00:00:00Z");
    assert_eq!(iso8601_utc(86399), "1970-01-01T23:59:59Z");
    assert_eq!(iso8601_utc(68169600), "1972-02-29T00:00:00Z");
    assert_eq!(iso8601_utc(978307199), "2000-12-31T23:59:59Z");
    assert_eq!(iso8601_utc(1773133200), "2026-03-10T09:00:00Z");
    assert_eq!(iso8601_utc(4107542400), "2100-03-01T00:00:00Z");
}

#[test]
fn rfc3339_text_of_clock_readings() {
    assert_eq!(rfc3339_of_reading(Some((1700000000, 0))), "2023-11-14T22:13:20+00:00");
    assert_eq!(rfc3339_of_reading(Some((1700000000, 500_000_000))), "2023-11-14T22:13:20.500+00:00");
    assert_eq!(rfc3339_of_reading(None), EPOCH_RFC3339);
    assert_eq!(rfc3339_of_reading(Some((u64::MAX, 0))), EPOCH_RFC3339);
    assert_eq!(rfc3339_of_reading(Some((i64::MAX as u64, 0))), EPOCH_RFC3339);
}

#[test]
fn sample_metadata_keys_are_distinct() {
    let c = Challenge::sample();
    assert_ne!(c.metadata[0].0, c.metadata[1].0);
}

use ninja::challenge::{Challenge, DifficultyLevel, TestType};
use ninja::challenge_generation::challenge_generator::{
    batch_chunks, estimate_token_usage, generation_cycle_step, tally_outcomes,
    ChallengeGenerationConfig,
};
use ninja::challenge_generation::performance_tracker::{
    calculate_complexity_score, count_passed_tests, extract_error_types, make_record,
    success_rates_by_field, PerformanceTracker,
};
use ninja::challenge_generation::swe_forge_adapter::{
    create_demo_challenge, create_demo_challenge_at, extract_tests, SweForgeAdapter, SweForgeConfig, WorkspaceFields,
};
use ninja::challenge_solver::{SolveResult, TestResult};
use ninja::error::NinjaError;

fn outcome(passed: bool, output: &str, error_output: &str, exit_code: i32) -> TestResult {
    TestResult {
        test_name: "t".to_string(),
        passed,
        output: output.to_string(),
        error_output: error_output.to_string(),
        exit_code,
    }
}

fn solved(duration_ms: u64) -> SolveResult {
    SolveResult {
        challenge_id: "c".to_string(),
        success: true,
        generated_code: Some("x = 1".to_string()),
        test_results: vec![outcome(true, "", "", 0)],
        total_attempts: 1,
        duration_ms,
        error_message: None,
    }
}

fn failed(duration_ms: u64) -> SolveResult {
    SolveResult {
        challenge_id: "c".to_string(),
        success: false,
        generated_code: Some("x = 1".to_string()),
        test_results: vec![outcome(false, "", "AssertionError: 1 != 2", 1)],
        total_attempts: 1,
        duration_ms,
        error_message: Some("test failed".to_string()),
    }
}

fn config() -> SweForgeConfig {
    SweForgeConfig::with_credentials(Some("gh".to_string()), Some("or".to_string()))
}

#[test]
fn default_swe_forge_settings() {
    let c = config();
    assert_eq!(c.swe_forge_binary, "swe-forge");
    assert_eq!(c.github_token, "gh");
    assert_eq!(c.openrouter_api_key, "or");
    assert_eq!(c.output_dir, "./generated-challenges");
    assert_eq!(c.max_tasks, 5);
    assert_eq!(c.difficulty.as_deref(), Some("medium"));
    assert_eq!(c.min_stars, Some(20));
    let empty = SweForgeConfig::with_credentials(None, None);
    assert_eq!(empty.github_token, "");
}

#[test]
fn mining_command_line() {
    let a = SweForgeAdapter::new(config());
    assert_eq!(a.mine_program(), "swe-forge");
    assert_eq!(
        a.mine_command_args(),
        vec![
            "swe", "mine", "--output", "./generated-challenges", "--max-tasks", "5", "--once",
            "--difficulty", "medium", "--min-stars", "20", "--languages", "python,rust,javascript",
        ]
    );
    let env = a.mine_command_env();
    assert_eq!(env[0], ("GITHUB_TOKEN".to_string(), "gh".to_string()));
    assert_eq!(env[1], ("OPENROUTER_API_KEY".to_string(), "or".to_string()));
    assert_eq!(a.output_dir(), "./generated-challenges");
    assert_eq!(a.difficulty_level(), DifficultyLevel::Medium);
}

#[test]
fn mining_outcomes() {
    assert!(SweForgeAdapter::mine_outcome(true, "").is_ok());
    match SweForgeAdapter::mine_outcome(false, "boom") {
        Err(NinjaError::Execution(m)) => assert_eq!(m, "SWE-Forge failed: boom"),
        other => panic!("unexpected {:?}", other),
    }
    match SweForgeAdapter::build_outcome(false, "cargo") {
        Err(NinjaError::Execution(m)) => assert_eq!(m, "SWE-Forge build failed: cargo"),
        other => panic!("unexpected {:?}", other),
    }
}

#[test]
fn tests_from_workspace_lists() {
    let fields = WorkspaceFields {
        instance_id: None,
        repo: None,
        problem_statement: None,
        fail_to_pass: Some(vec![Some("pytest a".to_string()), None, Some("pytest c".to_string())]),
        pass_to_pass: Some(vec![Some("pytest p".to_string())]),
    };
    let tests = extract_tests(&fields);
    let names: Vec<&str> = tests.iter().map(|t| t.name.as_str()).collect();
    assert_eq!(names, vec!["fail_to_pass_0", "fail_to_pass_2", "pass_to_pass_0"]);
    assert_eq!(tests[0].test_type, TestType::FailToPass);
    assert_eq!(tests[2].test_type, TestType::PassToPass);
    assert_eq!(tests[1].command, "pytest c");
}

#[test]
fn fallback_test_without_lists() {
    let fields = WorkspaceFields {
        instance_id: None,
        repo: None,
        problem_statement: None,
        fail_to_pass: None,
        pass_to_pass: Some(Vec::new()),
    };
    let tests = extract_tests(&fields);
    assert_eq!(tests.len(), 1);
    assert_eq!(tests[0].name, "basic_test");
    assert_eq!(tests[0].command, "python -m pytest -xvs");
    assert_eq!(tests[0].test_type, TestType::Validation);
}

#[test]
fn workspace_yaml_becomes_a_challenge() {
    let a = SweForgeAdapter::new(config());
    let yaml = "instance_id: owner__repo-42\nrepo: owner/repo\nproblem_statement: Fix the bug\nfail_to_pass:\n  - pytest tests/test_a.py\npass_to_pass:\n  - pytest tests/test_b.py\n";
    let g = a.parse_workspace_yaml(yaml, "/ws/42".to_string()).unwrap();
    assert_eq!(g.task_id, "owner__repo-42");
    assert_eq!(g.repository, "owner/repo");
    assert_eq!(g.difficulty, "medium");
    assert_eq!(g.workspace_path, "/ws/42");
    let c = &g.challenge;
    assert_eq!(c.title, "SWE Challenge: owner__repo-42");
    assert_eq!(c.description, "Fix the bug");
    assert_eq!(c.repository.as_deref(), Some("owner/repo"));
    assert_eq!(c.tests.len(), 2);
    assert_eq!(c.tests[0].command, "pytest tests/test_a.py");
    assert_eq!(c.setup_commands, vec!["pip install -e ."]);
    assert_eq!(c.expected_files, vec!["solution.py"]);
    assert_eq!(c.metadata[1], ("repository".to_string(), "owner/repo".to_string()));
    assert_eq!(c.validate(), Ok(()));
}

#[test]
fn workspace_yaml_defaults_for_missing_fields() {
    let a = SweForgeAdapter::new(config());
    let g = a.parse_workspace_yaml("other: 1\n", "/ws".to_string()).unwrap();
    assert_eq!(g.task_id, "unknown");
    assert_eq!(g.repository, "unknown/unknown");
    assert_eq!(g.challenge.description, "No description provided");
    assert_eq!(g.challenge.tests[0].name, "basic_test");
}

#[test]
fn invalid_workspace_yaml_is_a_serialization_error() {
    let a = SweForgeAdapter::new(config());
    match a.parse_workspace_yaml("key: [unclosed", "/ws".to_string()) {
        Err(NinjaError::Serialization(m)) => assert!(!m.is_empty()),
        other => panic!("unexpected {:?}", other),
    }
}

#[test]
fn demo_challenge_shape() {
    let c = create_demo_challenge();
    assert_eq!(c.id, "swe-forge-demo-001");
    assert_eq!(c.tests[0].name, "test_addition");
    assert_eq!(c.expected_files, vec!["math_utils.py", "test_math.py"]);
    assert!(!c.created_at.is_empty());
    assert_eq!(c.validate(), Ok(()));
}

#[test]
fn batches_split_into_groups() {
    assert_eq!(batch_chunks(7, 3), vec![(0, 3), (3, 6), (6, 7)]);
    assert_eq!(batch_chunks(6, 3), vec![(0, 3), (3, 6)]);
    assert!(batch_chunks(0, 3).is_empty());
}

#[test]
fn outcomes_are_tallied() {
    assert_eq!(tally_outcomes(&vec![Some(true), Some(false), None, Some(true)]), (2, 2));
    assert_eq!(tally_outcomes(&Vec::new()), (0, 0));
}

#[test]
fn token_usage_estimate() {
    let mut r = solved(10);
    r.generated_code = Some("12345678".to_string());
    r.test_results = vec![outcome(true, "abcdefghijk", "", 0), outcome(true, "abc", "", 0)];
    assert_eq!(estimate_token_usage(&r), 2 + 2);
    r.generated_code = None;
    assert_eq!(estimate_token_usage(&r), 2);
}

#[test]
fn generation_cycle_decisions() {
    let c = ChallengeGenerationConfig::with_swe_forge(config());
    assert_eq!(c.generation_interval_minutes, 60);
    assert_eq!(c.max_concurrent_solves, 3);
    let s = generation_cycle_step(&c, Some(10));
    assert!(s.record_attempts && s.run_analysis);
    assert_eq!(s.sleep_seconds, 3600);
    let s = generation_cycle_step(&c, Some(9));
    assert!(s.record_attempts && !s.run_analysis);
    let s = generation_cycle_step(&c, None);
    assert!(!s.record_attempts && !s.run_analysis);
}

#[test]
fn complexity_of_the_sample() {
    assert_eq!(calculate_complexity_score(&Challenge::sample()), 2000);
    let mut c = Challenge::sample();
    c.description = "x".repeat(5000);
    c.setup_commands = vec!["s".to_string(); 9];
    assert_eq!(calculate_complexity_score(&c), 4000 + 800 + 2000);
}

#[test]
fn error_kinds_of_an_attempt() {
    let mut r = failed(1);
    r.error_message = Some("compile error after timeout in test".to_string());
    r.test_results = vec![
        outcome(false, "", "ImportError: x", 1),
        outcome(false, "", "AssertionError", 1),
        outcome(false, "", "boom", 2),
        outcome(false, "", "boom", 0),
    ];
    assert_eq!(
        extract_error_types(&r),
        vec!["assertion_error", "compilation_error", "import_error", "runtime_error", "test_failure", "timeout"]
    );
    assert!(extract_error_types(&solved(1)).is_empty());
    assert_eq!(count_passed_tests(&r.test_results), 0);
}

#[test]
fn records_describe_attempts() {
    let c = Challenge::sample();
    let rec = make_record(&c, &failed(250), 99);
    assert_eq!(rec.timestamp, 99);
    assert_eq!(rec.difficulty, "Easy");
    assert_eq!(rec.language, "python");
    assert!(!rec.success);
    assert_eq!(rec.solve_time_ms, 250);
    assert_eq!(rec.test_count, 1);
    assert_eq!(rec.passed_tests, 0);
    assert_eq!(rec.failed_tests, 1);
    assert_eq!(rec.error_types, vec!["assertion_error", "test_failure"]);
    assert_eq!(rec.complexity_score, 2000);
}

#[test]
fn empty_history_analysis() {
    let t = PerformanceTracker::new();
    let a = t.generate_analysis_report();
    assert_eq!(a.total_attempts, 0);
    assert_eq!(a.successful_attempts, 0);
    assert!(a.recommendations.is_empty());
    assert!(a.performance_trends.is_empty());
}

#[test]
fn analysis_of_a_history() {
    let c = Challenge::sample();
    let mut t = PerformanceTracker::new();
    for i in 0..3u64 {
        t.record_attempt_at(&c, &failed(100), i);
    }
    for i in 3..6u64 {
        t.record_attempt_at(&c, &solved(100), i);
    }
    let a = t.generate_analysis_report();
    assert_eq!(a.total_attempts, 6);
    assert_eq!(a.successful_attempts, 3);
    assert_eq!(a.average_solve_time_ms, 100);
    assert_eq!(a.total_complexity_score, 12000);
    assert_eq!(a.success_rate_by_difficulty.len(), 1);
    assert_eq!(a.success_rate_by_difficulty[0].value, "Easy");
    assert_eq!(a.success_rate_by_difficulty[0].attempts, 6);
    assert_eq!(a.success_rate_by_difficulty[0].successes, 3);
    assert_eq!(a.success_rate_by_language[0].value, "python");
    assert_eq!(
        a.most_common_errors,
        vec![("assertion_error".to_string(), 3), ("test_failure".to_string(), 3)]
    );
    assert_eq!(a.performance_trends.len(), 3);
    assert_eq!(a.performance_trends[0].metric, "success_rate");
    assert_eq!(a.performance_trends[0].direction, "stable");
    assert_eq!(a.performance_trends[0].first_half_total, 0);
    assert_eq!(a.performance_trends[0].second_half_total, 3);
    assert_eq!(a.performance_trends[1].metric, "solve_time_ms");
    assert_eq!(a.performance_trends[1].confidence_tenths, 7);
    assert_eq!(
        a.recommendations,
        vec!["Most common error is 'assertion_error' (50% of attempts). Focus optimization here."]
    );
}

#[test]
fn rising_solve_time_counts_as_improving() {
    let c = Challenge::sample();
    let mut t = PerformanceTracker::new();
    for i in 0..3u64 {
        t.record_attempt_at(&c, &solved(100), i);
    }
    for i in 3..6u64 {
        t.record_attempt_at(&c, &solved(200), i);
    }
    let a = t.generate_analysis_report();
    assert_eq!(a.performance_trends[1].direction, "improving");
    assert_eq!(a.performance_trends[1].confidence_tenths, 8);
    assert_eq!(
        a.recommendations,
        vec!["Excellent success rate! Consider increasing challenge difficulty for more growth."]
    );
    let rates = success_rates_by_field(&Vec::new(), true);
    assert!(rates.is_empty());
}

#[test]
fn low_success_rate_is_reported() {
    let c = Challenge::sample();
    let mut t = PerformanceTracker::new();
    t.record_attempt_at(&c, &solved(100), 0);
    let mut r = failed(100);
    r.error_message = None;
    r.test_results = vec![outcome(false, "", "", 0)];
    t.record_attempt_at(&c, &r, 1);
    t.record_attempt_at(&c, &r, 2);
    let a = t.generate_analysis_report();
    assert_eq!(
        a.recommendations,
        vec!["Overall success rate is below 50%. Consider reviewing code generation prompts or improving test validation."]
    );
    assert!(a.most_common_errors.is_empty());
}

#[test]
fn recording_adds_one_attempt_to_the_analysis() {
    let c = Challenge::sample();
    let mut t = PerformanceTracker::new();
    t.record_attempt_at(&c, &failed(1), 0);
    let before = t.generate_analysis_report();
    t.record_attempt_at(&c, &solved(1), 1);
    let after = t.generate_analysis_report();
    assert_eq!(after.total_attempts, before.total_attempts + 1);
    assert_eq!(after.successful_attempts, before.successful_attempts + 1);
    t.record_attempt_at(&c, &failed(1), 2);
    let last = t.generate_analysis_report();
    assert_eq!(last.total_attempts, 3);
    assert_eq!(last.successful_attempts, after.successful_attempts);
}

#[test]
fn checked_token_usage_refuses_overflow() {
    let mut r = solved(10);
    r.generated_code = Some("12345678".to_string());
    assert_eq!(ninja::challenge_generation::challenge_generator::checked_token_usage(&r), Some(2));
    r.test_results = vec![outcome(true, &"x".repeat(16), "", 0)];
    assert_eq!(ninja::challenge_generation::challenge_generator::checked_token_usage(&r), Some(6));
}

#[test]
fn analysis_does_not_depend_on_recording_order() {
    let c = Challenge::sample();
    let mut other = Challenge::sample();
    other.language = "rust".to_string();
    other.difficulty = DifficultyLevel::Hard;
    let mut t1 = PerformanceTracker::new();
    let mut t2 = PerformanceTracker::new();
    t1.record_attempt_at(&c, &failed(100), 0);
    t1.record_attempt_at(&other, &solved(300), 1);
    t1.record_attempt_at(&c, &solved(200), 2);
    t2.record_attempt_at(&c, &solved(200), 500);
    t2.record_attempt_at(&c, &failed(100), 600);
    t2.record_attempt_at(&other, &solved(300), 700);
    let (a1, a2) = (t1.generate_analysis_report(), t2.generate_analysis_report());
    assert_eq!(a1.total_attempts, a2.total_attempts);
    assert_eq!(a1.successful_attempts, a2.successful_attempts);
    assert_eq!(a1.average_solve_time_ms, a2.average_solve_time_ms);
    assert_eq!(a1.total_complexity_score, a2.total_complexity_score);
    for r in &a1.success_rate_by_language {
        let s = a2.success_rate_by_language.iter().find(|x| x.value == r.value).unwrap();
        assert_eq!((s.attempts, s.successes), (r.attempts, r.successes));
    }
    assert_eq!(a1.success_rate_by_difficulty.len(), a2.success_rate_by_difficulty.len());
    assert_eq!(a1.most_common_errors, a2.most_common_errors);
}

#[test]
fn demo_challenge_at_a_given_time() {
    let c = create_demo_challenge_at("2024-05-01T10:00:00+00:00".to_string());
    assert_eq!(c.created_at, "2024-05-01T10:00:00+00:00");
    assert_eq!(c.metadata[0].0, "generated_by");
    assert_ne!(c.metadata[0].0, c.metadata[1].0);
}

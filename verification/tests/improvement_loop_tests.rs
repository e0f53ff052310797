use ninja::challenge_solver::{SolveResult, TestResult};
use ninja::continuous_improvement_loop::{
    count_rollout_files, efficiency_fraction, error_report_message, estimated_api_calls,
    extend_history, generate_immediate_suggestions, processed_note, quality_levels,
    resource_efficiency_fraction, rollout_challenge_id, rollout_file_name, should_send_report,
    QualityLevels, RolloutCounts, MAX_ROLLOUT_HISTORY, PERFORMANCE_WINDOW_HOURS,
    REPORT_INTERVAL_MINUTES,
};
use ninja::error::NinjaError;

fn attempt(success: bool, code: bool, error: Option<&str>, tests: Vec<(bool, &str)>) -> SolveResult {
    SolveResult {
        challenge_id: "c".to_string(),
        success,
        generated_code: if code { Some("x".to_string()) } else { None },
        test_results: tests
            .into_iter()
            .map(|(passed, err)| TestResult {
                test_name: "t".to_string(),
                passed,
                output: String::new(),
                error_output: err.to_string(),
                exit_code: if passed { 0 } else { 1 },
            })
            .collect(),
        total_attempts: 1,
        duration_ms: 10,
        error_message: error.map(|s| s.to_string()),
    }
}

#[test]
fn successful_attempt_keeps_the_approach() {
    let r = attempt(true, true, Some("timeout"), vec![(false, "assert")]);
    assert_eq!(generate_immediate_suggestions(&r), vec!["maintain_current_approach"]);
}

#[test]
fn failed_attempt_suggestions_from_error_and_tests() {
    let r = attempt(
        false,
        true,
        Some("compile error: module not found after time limit"),
        vec![(true, ""), (false, "AssertionError: expected assertion")],
    );
    assert_eq!(
        generate_immediate_suggestions(&r),
        vec![
            "optimize_performance",
            "fix_syntax_errors",
            "fix_import_issues",
            "fix_failing_tests",
            "fix_logic_errors",
        ]
    );
}

#[test]
fn failed_attempt_without_findings_keeps_the_approach() {
    let r = attempt(false, false, None, vec![(true, "")]);
    assert_eq!(generate_immediate_suggestions(&r), vec!["maintain_current_approach"]);
    let r = attempt(false, false, Some("weird"), vec![(false, "segfault")]);
    assert_eq!(generate_immediate_suggestions(&r), vec!["fix_failing_tests"]);
}

#[test]
fn quality_level_tiers() {
    let none: Vec<String> = Vec::new();
    assert_eq!(
        quality_levels(&attempt(true, true, None, vec![]), &none),
        QualityLevels { code_quality_tenths: 9, error_handling_tenths: 9, architecture_tenths: 7, similarity_tenths: 8 }
    );
    let compile = vec!["runtime_error".to_string(), "compilation_error".to_string()];
    let q = quality_levels(&attempt(false, true, None, vec![]), &compile);
    assert_eq!(q.code_quality_tenths, 5);
    assert_eq!(q.error_handling_tenths, 3);
    assert_eq!(q.similarity_tenths, 3);
    let other = vec!["compile_error".to_string()];
    let q = quality_levels(&attempt(false, false, None, vec![]), &other);
    assert_eq!(q.code_quality_tenths, 1);
    assert_eq!(q.error_handling_tenths, 6);
}

#[test]
fn efficiency_is_clamped() {
    assert_eq!(efficiency_fraction(30_000), (1, 1));
    assert_eq!(efficiency_fraction(60_000), (1, 1));
    assert_eq!(efficiency_fraction(120_000), (60_000, 120_000));
    assert_eq!(efficiency_fraction(600_000), (60_000, 600_000));
    assert_eq!(efficiency_fraction(900_000), (1, 10));
    assert_eq!(resource_efficiency_fraction(0), (1, 1));
    assert_eq!(resource_efficiency_fraction(900_000), (60_000, 900_000));
}

#[test]
fn reports_are_due_after_the_interval() {
    assert!(should_send_report(None, 100, 120));
    assert!(!should_send_report(Some(0), 120 * 60 - 1, 120));
    assert!(should_send_report(Some(0), 120 * 60, 120));
    assert!(should_send_report(Some(500), 500, 0));
}

#[test]
fn rollout_names() {
    assert_eq!(rollout_challenge_id(1700000000), "challenge_1700000000");
    assert_eq!(rollout_file_name(17, "challenge_17"), "rollout_17_challenge_17.json");
}

#[test]
fn error_report_text() {
    let m = error_report_message(4, &NinjaError::Docker("down".to_string()));
    assert_eq!(
        m,
        "\u{274c} **Ninja Improvement Loop Error**\n\nIteration: 4\nError: Docker error: down\n\nThe loop will retry after a delay."
    );
}

#[test]
fn history_keeps_the_newest() {
    let mut h: Vec<u32> = vec![1, 2, 3];
    extend_history(&mut h, vec![4, 5], 4);
    assert_eq!(h, vec![2, 3, 4, 5]);
    extend_history(&mut h, vec![], 10);
    assert_eq!(h, vec![2, 3, 4, 5]);
    let mut big: Vec<usize> = (0..MAX_ROLLOUT_HISTORY).collect();
    extend_history(&mut big, vec![MAX_ROLLOUT_HISTORY], MAX_ROLLOUT_HISTORY);
    assert_eq!(big.len(), MAX_ROLLOUT_HISTORY);
    assert_eq!(big[0], 1);
    assert_eq!(*big.last().unwrap(), MAX_ROLLOUT_HISTORY);
}

#[test]
fn rollout_files_are_counted() {
    let c = count_rollout_files(&vec![None, Some(None), Some(Some(true)), Some(Some(false)), Some(Some(true))]);
    assert_eq!(c, RolloutCounts { total_challenges: 4, parsed_files: 3, successful_challenges: 2 });
    assert_eq!(estimated_api_calls(4), 20);
    assert_eq!(processed_note(4), "Autonomous operation: 4 challenges processed");
}

#[test]
fn compile_errors_rate_error_handling_three() {
    let r = attempt(false, true, Some("syntax error near line 3"), vec![]);
    let kinds = ninja::challenge_generation::performance_tracker::extract_error_types(&r);
    assert_eq!(kinds, vec!["compilation_error"]);
    assert_eq!(quality_levels(&r, &kinds).error_handling_tenths, 3);
}

#[test]
fn default_reporting_interval_and_window() {
    assert_eq!(REPORT_INTERVAL_MINUTES, 120);
    assert_eq!(PERFORMANCE_WINDOW_HOURS, 24);
}

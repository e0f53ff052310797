//! The decisions of the continuous improvement loop: the immediate
//! suggestions drawn from one attempt, the score levels of a rollout, when
//! a progress report is due, how rollouts are named and how much history
//! is kept.
//!
//! Scores that the loop reports as fractions are given here as integer
//! tenths or as a numerator and a denominator.

use vstd::prelude::*;
use vstd::string::StringExecFns;
use crate::challenge_solver::{SolveResult, TestResult};
use crate::error::NinjaError;
use crate::text::{append_decimal, decimal, has_substring, str_contains, str_equal, texts_of};

verus! {

/// A change one step of a rollout made to a file.
#[derive(Debug, Clone)]
pub struct CodeChange {
    pub file_path: String,
    /// `create`, `modify` or `delete`.
    pub change_type: String,
    pub lines_added: usize,
    pub lines_removed: usize,
    pub change_description: String,
}

/// A recommendation drawn from the evaluation of a rollout.
#[derive(Debug, Clone)]
pub struct ImprovementRecommendation {
    /// `code_change`, `architecture_modification` or `prompting_improvement`.
    pub recommendation_type: String,
    /// `critical`, `high`, `medium` or `low`.
    pub priority: String,
    pub target_component: String,
    pub description: String,
    pub expected_impact: String,
    pub implementation_complexity: String,
    pub concrete_action_steps: Vec<String>,
}

/// How often a progress report is sent by default, in minutes.
pub const REPORT_INTERVAL_MINUTES: u64 = 120;

/// The window of recent performance the loop tracks by default, in hours.
pub const PERFORMANCE_WINDOW_HOURS: u64 = 24;

/// How many rollouts the loop keeps in memory.
pub const MAX_ROLLOUT_HISTORY: usize = 1000;

/// The pause between two iterations of the loop, in seconds.
pub const ITERATION_PAUSE_SECONDS: u64 = 60;

/// The solve time, in milliseconds, that counts as fully efficient.
pub const TARGET_SOLVE_TIME_MS: u64 = 60000;

/// `name` if `present`, else nothing.
pub open spec fn flagged(present: bool, name: Seq<char>) -> Seq<Seq<char>> {
    if present {
        seq![name]
    } else {
        Seq::empty()
    }
}

/// `text` mentions `a` or `b`.
pub open spec fn mentions_either(text: Seq<char>, a: Seq<char>, b: Seq<char>) -> bool {
    has_substring(text, a) || has_substring(text, b)
}

/// The suggestions an error message calls for: performance for a timeout,
/// syntax for a compile error, imports for a missing module.
pub open spec fn error_suggestions(message: Seq<char>) -> Seq<Seq<char>> {
    flagged(mentions_either(message, "timeout"@, "time"@), "optimize_performance"@) + flagged(
        mentions_either(message, "syntax"@, "compile"@),
        "fix_syntax_errors"@,
    ) + flagged(mentions_either(message, "import"@, "module"@), "fix_import_issues"@)
}

/// Some test failed.
pub open spec fn some_failing(tests: Seq<TestResult>) -> bool {
    exists|i: int| 0 <= i < tests.len() && !tests[i].passed
}

/// Some failing test reports an assertion.
pub open spec fn some_failing_assertion(tests: Seq<TestResult>) -> bool {
    exists|i: int|
        0 <= i < tests.len() && !tests[i].passed && mentions_either(
            tests[i].error_output@,
            "assertion"@,
            "assert"@,
        )
}

/// What a failed attempt's error message and tests call for, before the
/// approach is kept for want of anything else.
pub open spec fn found_spec(r: SolveResult) -> Seq<Seq<char>> {
    (match r.error_message {
        Some(e) => error_suggestions(e@),
        None => Seq::empty(),
    }) + if some_failing(r.test_results@) {
        seq!["fix_failing_tests"@] + flagged(
            some_failing_assertion(r.test_results@),
            "fix_logic_errors"@,
        )
    } else {
        Seq::empty()
    }
}

/// The suggestions drawn at once from an attempt. A failed attempt gets
/// those its error message calls for, then `fix_failing_tests` when a test
/// failed, and `fix_logic_errors` when a failing test reports an
/// assertion. When nothing was found, the approach is kept.
pub open spec fn suggestions_spec(r: SolveResult) -> Seq<Seq<char>> {
    let found = if r.success {
        Seq::empty()
    } else {
        found_spec(r)
    };
    if found.len() == 0 {
        seq!["maintain_current_approach"@]
    } else {
        found
    }
}

/// An attempt always gets at least one suggestion; a successful one gets
/// exactly `maintain_current_approach`, and so does a failed one for which
/// nothing else was found.
pub proof fn lemma_suggestions_shape(r: SolveResult)
    ensures
        suggestions_spec(r).len() > 0,
        r.success ==> suggestions_spec(r) == seq!["maintain_current_approach"@],
        (!r.success && r.error_message is None && !some_failing(r.test_results@))
            ==> suggestions_spec(r) == seq!["maintain_current_approach"@],
{
    if !r.success && r.error_message is None && !some_failing(r.test_results@) {
        let found = Seq::<Seq<char>>::empty() + Seq::<Seq<char>>::empty();
        assert(found =~= Seq::<Seq<char>>::empty());
    }
}

/// `x` is among the items of `a + b` when it is among those of `a` or `b`.
proof fn lemma_contains_concat(a: Seq<Seq<char>>, b: Seq<Seq<char>>, x: Seq<char>)
    ensures
        a.contains(x) ==> (a + b).contains(x),
        b.contains(x) ==> (a + b).contains(x),
        (a + b).contains(x) ==> a.contains(x) || b.contains(x),
{
    if a.contains(x) {
        let i = choose|i: int| 0 <= i < a.len() && a[i] == x;
        assert((a + b)[i] == x);
    }
    if b.contains(x) {
        let i = choose|i: int| 0 <= i < b.len() && b[i] == x;
        assert((a + b)[a.len() + i] == x);
    }
    if (a + b).contains(x) {
        let i = choose|i: int| 0 <= i < (a + b).len() && (a + b)[i] == x;
        if i < a.len() {
            assert(a[i] == x);
        } else {
            assert(b[i - a.len()] == x);
        }
    }
}

/// What a failed attempt calls for: an error message that mentions
/// "syntax" or "compile" calls for fixing syntax errors, one that mentions
/// "timeout" or "time" for optimizing performance, one that mentions
/// "import" or "module" for fixing imports; a failing test calls for fixing
/// the failing tests, and a failing test whose output mentions "assertion"
/// or "assert" for fixing the logic. None of these is suggested for a
/// successful attempt, and the approach is kept only when nothing else is
/// suggested.
pub proof fn lemma_suggestions_for_attempt(r: SolveResult)
    ensures
        !r.success && (r.error_message matches Some(e) && (has_substring(e@, "syntax"@)
            || has_substring(e@, "compile"@))) ==> suggestions_spec(r).contains(
            "fix_syntax_errors"@,
        ),
        !r.success && (r.error_message matches Some(e) && (has_substring(e@, "timeout"@)
            || has_substring(e@, "time"@))) ==> suggestions_spec(r).contains(
            "optimize_performance"@,
        ),
        !r.success && (r.error_message matches Some(e) && (has_substring(e@, "import"@)
            || has_substring(e@, "module"@))) ==> suggestions_spec(r).contains(
            "fix_import_issues"@,
        ),
        !r.success && (exists|i: int|
            0 <= i < r.test_results@.len() && !#[trigger] r.test_results@[i].passed)
            ==> suggestions_spec(r).contains("fix_failing_tests"@),
        !r.success && (exists|i: int|
            0 <= i < r.test_results@.len() && !#[trigger] r.test_results@[i].passed && (
            has_substring(r.test_results@[i].error_output@, "assertion"@) || has_substring(
                r.test_results@[i].error_output@,
                "assert"@,
            ))) ==> suggestions_spec(r).contains("fix_logic_errors"@),
        r.success ==> suggestions_spec(r) == seq!["maintain_current_approach"@],
        suggestions_spec(r).contains("maintain_current_approach"@) ==> suggestions_spec(r)
            == seq!["maintain_current_approach"@],
        suggestions_spec(r).contains("fix_syntax_errors"@) ==> !r.success && (
        r.error_message matches Some(e) && (has_substring(e@, "syntax"@) || has_substring(
            e@,
            "compile"@,
        ))),
        suggestions_spec(r).contains("optimize_performance"@) ==> !r.success && (
        r.error_message matches Some(e) && (has_substring(e@, "timeout"@) || has_substring(
            e@,
            "time"@,
        ))),
        suggestions_spec(r).contains("fix_import_issues"@) ==> !r.success && (
        r.error_message matches Some(e) && (has_substring(e@, "import"@) || has_substring(
            e@,
            "module"@,
        ))),
        suggestions_spec(r).contains("fix_failing_tests"@) ==> !r.success && (exists|i: int|
            0 <= i < r.test_results@.len() && !#[trigger] r.test_results@[i].passed),
        suggestions_spec(r).contains("fix_logic_errors"@) ==> !r.success && (exists|i: int|
            0 <= i < r.test_results@.len() && !#[trigger] r.test_results@[i].passed && (
            has_substring(r.test_results@[i].error_output@, "assertion"@) || has_substring(
                r.test_results@[i].error_output@,
                "assert"@,
            ))),
{
    reveal_strlit("maintain_current_approach");
    reveal_strlit("fix_syntax_errors");
    reveal_strlit("optimize_performance");
    reveal_strlit("fix_import_issues");
    reveal_strlit("fix_failing_tests");
    reveal_strlit("fix_logic_errors");
    let keep: Seq<char> = "maintain_current_approach"@;
    let names: Seq<Seq<char>> = seq![
        "optimize_performance"@,
        "fix_syntax_errors"@,
        "fix_import_issues"@,
        "fix_failing_tests"@,
        "fix_logic_errors"@,
    ];
    assert(names[0][4] != names[1][4] && names[0][4] != names[2][4] && names[0][4]
        != names[3][4] && names[0][4] != names[4][4]);
    assert(names[1][4] != names[2][4] && names[1][4] != names[3][4] && names[1][4]
        != names[4][4]);
    assert(names[2][4] != names[3][4] && names[2][4] != names[4][4]);
    assert(names[3][4] != names[4][4]);
    assert(forall|k: int| 0 <= k < 5 ==> #[trigger] names[k].len() != keep.len());
    if r.success {
        assert forall|k: int| 0 <= k < 5 implies !suggestions_spec(r).contains(
            #[trigger] names[k],
        ) by {
            assert(names[k] != keep);
        }
    } else {
        lemma_suggestion_source(r, keep);
        lemma_suggestion_source(r, names[0]);
        lemma_suggestion_source(r, names[1]);
        lemma_suggestion_source(r, names[2]);
        lemma_suggestion_source(r, names[3]);
        lemma_suggestion_source(r, names[4]);
        if found_spec(r).len() == 0 {
            assert(suggestions_spec(r) == seq![keep]);
            assert forall|k: int| 0 <= k < 5 implies !suggestions_spec(r).contains(
                #[trigger] names[k],
            ) by {
                assert(names[k] != keep);
            }
        } else {
            assert(suggestions_spec(r) == found_spec(r));
        }
    }
}

proof fn lemma_flagged_contains(present: bool, name: Seq<char>, x: Seq<char>)
    ensures
        flagged(present, name).contains(x) <==> (present && x == name),
{
    if present {
        assert(flagged(present, name)[0] == name);
    }
}

/// Where a suggestion of a failed attempt comes from.
proof fn lemma_suggestion_source(r: SolveResult, x: Seq<char>)
    requires
        !r.success,
    ensures
        found_spec(r).contains(x) <==> ((r.error_message matches Some(e) && (
        (mentions_either(e@, "timeout"@, "time"@) && x == "optimize_performance"@) || (
        mentions_either(e@, "syntax"@, "compile"@) && x == "fix_syntax_errors"@) || (
        mentions_either(e@, "import"@, "module"@) && x == "fix_import_issues"@))) || (
        some_failing(r.test_results@) && (x == "fix_failing_tests"@ || (some_failing_assertion(
            r.test_results@,
        ) && x == "fix_logic_errors"@)))),
{
    let errs: Seq<Seq<char>> = match r.error_message {
        Some(e) => error_suggestions(e@),
        None => Seq::empty(),
    };
    let tests: Seq<Seq<char>> = if some_failing(r.test_results@) {
        seq!["fix_failing_tests"@] + flagged(
            some_failing_assertion(r.test_results@),
            "fix_logic_errors"@,
        )
    } else {
        Seq::empty()
    };
    assert(found_spec(r) == errs + tests);
    lemma_contains_concat(errs, tests, x);
    if let Some(e) = r.error_message {
        let t = flagged(mentions_either(e@, "timeout"@, "time"@), "optimize_performance"@);
        let s = flagged(mentions_either(e@, "syntax"@, "compile"@), "fix_syntax_errors"@);
        let m = flagged(mentions_either(e@, "import"@, "module"@), "fix_import_issues"@);
        assert(errs == t + s + m);
        lemma_contains_concat(t, s, x);
        lemma_contains_concat(t + s, m, x);
        lemma_flagged_contains(mentions_either(e@, "timeout"@, "time"@), "optimize_performance"@, x);
        lemma_flagged_contains(mentions_either(e@, "syntax"@, "compile"@), "fix_syntax_errors"@, x);
        lemma_flagged_contains(mentions_either(e@, "import"@, "module"@), "fix_import_issues"@, x);
    } else {
        assert(!errs.contains(x));
    }
    if some_failing(r.test_results@) {
        let head: Seq<Seq<char>> = seq!["fix_failing_tests"@];
        let l = flagged(some_failing_assertion(r.test_results@), "fix_logic_errors"@);
        assert(head.contains(x) <==> x == "fix_failing_tests"@) by {
            if x == "fix_failing_tests"@ {
                assert(head[0] == x);
            }
        }
        lemma_contains_concat(head, l, x);
        lemma_flagged_contains(some_failing_assertion(r.test_results@), "fix_logic_errors"@, x);
    } else {
        assert(!tests.contains(x));
    }
}

fn push_text(v: &mut Vec<String>, s: &str)
    ensures
        texts_of(final(v)@) == texts_of(old(v)@).push(s@),
{
    v.push(String::from_str(s));
    assert(texts_of(v@) =~= texts_of(old(v)@).push(s@));
}

/// The suggestions drawn at once from an attempt.
pub fn generate_immediate_suggestions(r: &SolveResult) -> (suggestions: Vec<String>)
    ensures
        texts_of(suggestions@) == suggestions_spec(*r),
{
    let mut suggestions: Vec<String> = Vec::new();
    if !r.success {
        match &r.error_message {
            Some(e) => {
                let e = e.as_str();
                if str_contains(e, "timeout") || str_contains(e, "time") {
                    push_text(&mut suggestions, "optimize_performance");
                }
                if str_contains(e, "syntax") || str_contains(e, "compile") {
                    push_text(&mut suggestions, "fix_syntax_errors");
                }
                if str_contains(e, "import") || str_contains(e, "module") {
                    push_text(&mut suggestions, "fix_import_issues");
                }
                assert(texts_of(suggestions@) =~= error_suggestions(e@));
            },
            None => {
                assert(texts_of(suggestions@) =~= Seq::<Seq<char>>::empty());
            },
        }
        let tests = &r.test_results;
        let mut failing = false;
        let mut assertion = false;
        let mut i: usize = 0;
        while i < tests.len()
            invariant
                i <= tests@.len(),
                tests == r.test_results,
                failing == exists|k: int| 0 <= k < i && !tests@[k].passed,
                assertion == exists|k: int|
                    0 <= k < i && !tests@[k].passed && mentions_either(
                        tests@[k].error_output@,
                        "assertion"@,
                        "assert"@,
                    ),
            decreases tests@.len() - i,
        {
            if !tests[i].passed {
                failing = true;
                let out = tests[i].error_output.as_str();
                if str_contains(out, "assertion") || str_contains(out, "assert") {
                    assertion = true;
                }
            }
            i = i + 1;
        }
        let ghost before = texts_of(suggestions@);
        if failing {
            push_text(&mut suggestions, "fix_failing_tests");
            if assertion {
                push_text(&mut suggestions, "fix_logic_errors");
            }
        }
        assert(texts_of(suggestions@) =~= before + if some_failing(r.test_results@) {
            seq!["fix_failing_tests"@] + flagged(
                some_failing_assertion(r.test_results@),
                "fix_logic_errors"@,
            )
        } else {
            Seq::empty()
        });
    }
    if suggestions.len() == 0 {
        push_text(&mut suggestions, "maintain_current_approach");
        assert(texts_of(suggestions@) =~= seq!["maintain_current_approach"@]);
    }
    suggestions
}

/// The quality levels of a rollout, in tenths.
#[derive(Debug, Clone, Copy, PartialEq, Eq, Structural)]
pub struct QualityLevels {
    pub code_quality_tenths: u8,
    pub error_handling_tenths: u8,
    pub architecture_tenths: u8,
    pub similarity_tenths: u8,
}

/// Some error kind is exactly `compilation_error`, the kind of a compile or
/// syntax error.
pub open spec fn has_compile_error(error_types: Seq<Seq<char>>) -> bool {
    exists|i: int| 0 <= i < error_types.len() && error_types[i] == "compilation_error"@
}

/// The levels of an attempt: code quality 9 when it succeeded, 5 when it
/// produced code, 1 otherwise; error handling 9 without errors, 3 with a
/// compile error, 6 otherwise; architecture 7; similarity to the
/// reference agent 8 when it succeeded, 3 otherwise.
pub open spec fn quality_levels_spec(r: SolveResult, error_types: Seq<Seq<char>>) -> QualityLevels {
    QualityLevels {
        code_quality_tenths: if r.success {
            9
        } else if r.generated_code is Some {
            5
        } else {
            1
        },
        error_handling_tenths: if error_types.len() == 0 {
            9
        } else if has_compile_error(error_types) {
            3
        } else {
            6
        },
        architecture_tenths: 7,
        similarity_tenths: if r.success {
            8
        } else {
            3
        },
    }
}

/// The quality levels of an attempt with these error kinds.
pub fn quality_levels(r: &SolveResult, error_types: &Vec<String>) -> (q: QualityLevels)
    ensures
        q == quality_levels_spec(*r, texts_of(error_types@)),
{
    let code_quality_tenths: u8 = if r.success {
        9
    } else if r.generated_code.is_some() {
        5
    } else {
        1
    };
    let mut compile = false;
    let mut i: usize = 0;
    while i < error_types.len()
        invariant
            i <= error_types@.len(),
            compile == exists|k: int| 0 <= k < i && error_types@[k]@ == "compilation_error"@,
        decreases error_types@.len() - i,
    {
        if str_equal(error_types[i].as_str(), "compilation_error") {
            compile = true;
        }
        i = i + 1;
    }
    assert(compile == has_compile_error(texts_of(error_types@))) by {
        if compile {
            let k = choose|k: int| 0 <= k < error_types@.len() && error_types@[k]@ == "compilation_error"@;
            assert(texts_of(error_types@)[k] == "compilation_error"@);
        }
        if has_compile_error(texts_of(error_types@)) {
            let k = choose|k: int|
                0 <= k < texts_of(error_types@).len() && texts_of(error_types@)[k]
                    == "compilation_error"@;
            assert(error_types@[k]@ == "compilation_error"@);
        }
    }
    let error_handling_tenths: u8 = if error_types.len() == 0 {
        9
    } else if compile {
        3
    } else {
        6
    };
    QualityLevels {
        code_quality_tenths,
        error_handling_tenths,
        architecture_tenths: 7,
        similarity_tenths: if r.success {
            8
        } else {
            3
        },
    }
}

/// The efficiency of a solve time as a fraction: full up to the target
/// time, the target over the time beyond it, and never below a tenth.
pub open spec fn efficiency_spec(solve_time_ms: u64) -> (u64, u64) {
    if solve_time_ms <= TARGET_SOLVE_TIME_MS {
        (1, 1)
    } else if solve_time_ms <= 10 * TARGET_SOLVE_TIME_MS {
        (TARGET_SOLVE_TIME_MS, solve_time_ms)
    } else {
        (1, 10)
    }
}

/// The efficiency score of a solve time, as numerator and denominator.
pub fn efficiency_fraction(solve_time_ms: u64) -> (f: (u64, u64))
    ensures
        f == efficiency_spec(solve_time_ms),
        f.1 > 0,
        f.0 <= f.1,
        10 * f.0 >= f.1,
{
    if solve_time_ms <= TARGET_SOLVE_TIME_MS {
        (1, 1)
    } else if solve_time_ms <= 10 * TARGET_SOLVE_TIME_MS {
        (TARGET_SOLVE_TIME_MS, solve_time_ms)
    } else {
        (1, 10)
    }
}

/// The resource efficiency of a solve time as a fraction: full up to the
/// target time, the target over the time beyond it.
pub fn resource_efficiency_fraction(solve_time_ms: u64) -> (f: (u64, u64))
    ensures
        f == if solve_time_ms <= TARGET_SOLVE_TIME_MS {
            (1u64, 1u64)
        } else {
            (TARGET_SOLVE_TIME_MS, solve_time_ms)
        },
        f.1 > 0,
        f.0 <= f.1,
{
    if solve_time_ms <= TARGET_SOLVE_TIME_MS {
        (1, 1)
    } else {
        (TARGET_SOLVE_TIME_MS, solve_time_ms)
    }
}

/// A progress report is due when none was sent yet, or when at least
/// `interval_minutes` whole minutes passed since the last one (times in
/// seconds).
pub open spec fn report_due_spec(last_report: Option<u64>, now: u64, interval_minutes: u64) -> bool {
    match last_report {
        None => true,
        Some(last) => (now - last) / 60 >= interval_minutes,
    }
}

/// Whether a progress report is due at `now`.
pub fn should_send_report(last_report: Option<u64>, now: u64, interval_minutes: u64) -> (due: bool)
    requires
        last_report matches Some(last) ==> last <= now,
    ensures
        due == report_due_spec(last_report, now, interval_minutes),
{
    match last_report {
        None => true,
        Some(last) => (now - last) / 60 >= interval_minutes,
    }
}

/// The id of the rollout recorded at `timestamp`: `challenge_` and the
/// timestamp.
pub fn rollout_challenge_id(timestamp: u64) -> (id: String)
    ensures
        id@ == "challenge_"@ + decimal(timestamp as nat),
{
    let mut id = String::from_str("challenge_");
    append_decimal(&mut id, timestamp);
    id
}

/// The file a rollout is saved to: `rollout_<timestamp>_<id>.json`.
pub fn rollout_file_name(timestamp: u64, challenge_id: &str) -> (name: String)
    ensures
        name@ == "rollout_"@ + decimal(timestamp as nat) + "_"@ + challenge_id@ + ".json"@,
{
    let mut name = String::from_str("rollout_");
    append_decimal(&mut name, timestamp);
    name.append("_");
    name.append(challenge_id);
    name.append(".json");
    name
}

/// The report sent when an iteration of the loop failed.
pub open spec fn error_report_spec(iteration: nat, message: Seq<char>) -> Seq<char> {
    "\u{274c} **Ninja Improvement Loop Error**\n\nIteration: "@ + decimal(iteration) + "\nError: "@
        + message + "\n\nThe loop will retry after a delay."@
}

/// The report on a failed iteration: how many iterations completed, and
/// the error.
pub fn error_report_message(iterations: u64, error: &NinjaError) -> (m: String)
    ensures
        m@ == error_report_spec(iterations as nat, error.message_spec()),
{
    let mut m = String::from_str("\u{274c} **Ninja Improvement Loop Error**\n\nIteration: ");
    append_decimal(&mut m, iterations);
    m.append("\nError: ");
    let text = error.message();
    m.append(text.as_str());
    m.append("\n\nThe loop will retry after a delay.");
    m
}

/// The last `max` items of a sequence, or all of them when there are fewer.
pub open spec fn newest<T>(items: Seq<T>, max: nat) -> Seq<T> {
    if items.len() > max {
        items.subrange(items.len() - max, items.len() as int)
    } else {
        items
    }
}

/// The kept history holds at most `max` items: the newest ones, in their
/// order; when there are no more than `max`, it holds them all.
pub proof fn lemma_newest<T>(items: Seq<T>, max: nat)
    ensures
        newest(items, max).len() == if items.len() > max {
            max
        } else {
            items.len()
        },
        forall|i: int|
            0 <= i < newest(items, max).len() ==> #[trigger] newest(items, max)[i] == items[items.len()
                - newest(items, max).len() + i],
        items.len() <= max ==> newest(items, max) == items,
{
}

/// Adds new rollouts to the history and keeps only the newest `max`.
pub fn extend_history<T>(history: &mut Vec<T>, new_items: Vec<T>, max: usize)
    ensures
        final(history)@ == newest(old(history)@ + new_items@, max as nat),
{
    let mut new_items = new_items;
    history.append(&mut new_items);
    if history.len() > max {
        let at = history.len() - max;
        let kept = history.split_off(at);
        *history = kept;
    }
}

/// What a progress report counts over the stored rollout files: how many
/// JSON files there are, how many of them could be read, and how many of
/// those record a success.
#[derive(Debug, Clone, Copy, PartialEq, Eq, Structural)]
pub struct RolloutCounts {
    pub total_challenges: usize,
    pub parsed_files: usize,
    pub successful_challenges: usize,
}

/// The counts over the stored files, each seen as `None` when it is not a
/// JSON file, `Some(None)` when it could not be read, and
/// `Some(Some(success))` when it was.
pub open spec fn rollout_counts_spec(files: Seq<Option<Option<bool>>>) -> (nat, nat, nat)
    decreases files.len(),
{
    if files.len() == 0 {
        (0, 0, 0)
    } else {
        let (t, p, s) = rollout_counts_spec(files.drop_last());
        match files.last() {
            None => (t, p, s),
            Some(None) => (t + 1, p, s),
            Some(Some(success)) => (t + 1, p + 1, if success {
                s + 1
            } else {
                s
            }),
        }
    }
}

proof fn lemma_rollout_counts_bound(files: Seq<Option<Option<bool>>>)
    ensures
        rollout_counts_spec(files).2 <= rollout_counts_spec(files).1 <= rollout_counts_spec(
            files,
        ).0 <= files.len(),
    decreases files.len(),
{
    if files.len() > 0 {
        lemma_rollout_counts_bound(files.drop_last());
    }
}

/// Counts the stored rollout files.
pub fn count_rollout_files(files: &Vec<Option<Option<bool>>>) -> (c: RolloutCounts)
    ensures
        (c.total_challenges as nat, c.parsed_files as nat, c.successful_challenges as nat)
            == rollout_counts_spec(files@),
        c.successful_challenges <= c.parsed_files <= c.total_challenges <= files@.len(),
{
    let mut c = RolloutCounts { total_challenges: 0, parsed_files: 0, successful_challenges: 0 };
    let mut i: usize = 0;
    while i < files.len()
        invariant
            i <= files@.len(),
            (c.total_challenges as nat, c.parsed_files as nat, c.successful_challenges as nat)
                == rollout_counts_spec(files@.take(i as int)),
        decreases files@.len() - i,
    {
        assert(files@.take(i + 1).drop_last() =~= files@.take(i as int));
        proof {
            lemma_rollout_counts_bound(files@.take(i as int));
        }
        match files[i] {
            None => {},
            Some(None) => {
                c.total_challenges = c.total_challenges + 1;
            },
            Some(Some(success)) => {
                c.total_challenges = c.total_challenges + 1;
                c.parsed_files = c.parsed_files + 1;
                if success {
                    c.successful_challenges = c.successful_challenges + 1;
                }
            },
        }
        i = i + 1;
    }
    assert(files@.take(i as int) =~= files@);
    proof {
        lemma_rollout_counts_bound(files@);
    }
    c
}

/// The API calls a report estimates for the challenges processed: five
/// for each.
pub fn estimated_api_calls(total_challenges: usize) -> (calls: usize)
    requires
        total_challenges * 5 <= usize::MAX,
    ensures
        calls == total_challenges * 5,
{
    total_challenges * 5
}

/// The note a report gives on how many challenges were processed.
pub fn processed_note(total_challenges: usize) -> (note: String)
    ensures
        note@ == "Autonomous operation: "@ + decimal(total_challenges as nat)
            + " challenges processed"@,
{
    let mut note = String::from_str("Autonomous operation: ");
    append_decimal(&mut note, total_challenges as u64);
    note.append(" challenges processed");
    note
}

} // verus!

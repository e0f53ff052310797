//! Records solving attempts and analyses them: success rates, frequent
//! errors, trends between the older and the newer half of the history, and
//! recommendations drawn from them.
//!
//! Ratios are kept exact: a rate is a pair of counts, a complexity score is
//! an integer in ten-thousandths (10000 stands for 1.0), and a trend carries
//! the two half totals whose ratio gives its change.

use vstd::prelude::*;
use vstd::string::StringExecFns;
use crate::challenge::{Challenge, DifficultyLevel};
use crate::challenge_solver::{SolveResult, TestResult};
use crate::text::{byte_len, has_substring, str_contains, str_byte_len, decimal, append_decimal};
use crate::tally::{
    count_in, distinct_first, no_repeats, lemma_count_bound, lemma_count_push, lemma_count_concat,
    lemma_count_absent, lemma_count_no_repeats, lemma_distinct_first, is_top_selection, select_top,
};

verus! {

/// One recorded attempt.
#[derive(Debug)]
pub struct PerformanceRecord {
    pub timestamp: u64,
    pub challenge_id: String,
    pub difficulty: String,
    pub language: String,
    pub success: bool,
    pub solve_time_ms: u64,
    pub test_count: usize,
    pub passed_tests: usize,
    pub failed_tests: usize,
    /// Error kinds seen in the attempt, in increasing order, each once.
    pub error_types: Vec<String>,
    /// Complexity in ten-thousandths: 10000 stands for 1.0.
    pub complexity_score: u64,
}

// ---------------------------------------------------------------------
// Error kinds
// ---------------------------------------------------------------------

/// The error message of the attempt mentions `pattern`.
pub open spec fn message_mentions(r: SolveResult, pattern: Seq<char>) -> bool {
    r.error_message matches Some(m) && has_substring(m@, pattern)
}

/// How a failed test is classified: 1 import error, 2 assertion error,
/// 3 runtime error, 0 none (the test passed, or it failed with exit code 0
/// and neither marker in its error output).
pub open spec fn test_error_kind(t: TestResult) -> int {
    if t.passed {
        0
    } else if has_substring(t.error_output@, "ImportError"@) {
        1
    } else if has_substring(t.error_output@, "AssertionError"@) {
        2
    } else if t.exit_code != 0 {
        3
    } else {
        0
    }
}

/// Some test of the attempt is classified as `kind`.
pub open spec fn some_test_of_kind(tests: Seq<TestResult>, kind: int) -> bool {
    exists|i: int| 0 <= i < tests.len() && test_error_kind(tests[i]) == kind
}

/// `name` if `present`, else nothing.
pub open spec fn when(present: bool, name: Seq<char>) -> Seq<Seq<char>> {
    if present {
        seq![name]
    } else {
        Seq::empty()
    }
}

/// The error kinds of an attempt, sorted and without repetition.
pub open spec fn error_types_spec(r: SolveResult) -> Seq<Seq<char>> {
    when(some_test_of_kind(r.test_results@, 2), "assertion_error"@)
        + when(
        message_mentions(r, "compile"@) || message_mentions(r, "syntax"@),
        "compilation_error"@,
    ) + when(some_test_of_kind(r.test_results@, 1), "import_error"@) + when(
        some_test_of_kind(r.test_results@, 3),
        "runtime_error"@,
    ) + when(message_mentions(r, "test"@), "test_failure"@) + when(
        message_mentions(r, "timeout"@),
        "timeout"@,
    )
}

/// The texts held by a list of strings.
pub open spec fn texts(v: Seq<String>) -> Seq<Seq<char>> {
    v.map_values(|s: String| s@)
}

fn message_mentions_exec(r: &SolveResult, pattern: &str) -> (b: bool)
    ensures
        b == message_mentions(*r, pattern@),
{
    match &r.error_message {
        Some(m) => str_contains(m.as_str(), pattern),
        None => false,
    }
}

fn test_error_kind_exec(t: &TestResult) -> (k: u8)
    ensures
        k as int == test_error_kind(*t),
{
    if t.passed {
        0
    } else if str_contains(t.error_output.as_str(), "ImportError") {
        1
    } else if str_contains(t.error_output.as_str(), "AssertionError") {
        2
    } else if t.exit_code != 0 {
        3
    } else {
        0
    }
}

fn push_when(v: &mut Vec<String>, present: bool, name: &str)
    ensures
        texts(final(v)@) == texts(old(v)@) + when(present, name@),
{
    let ghost before = texts(v@);
    if present {
        v.push(String::from_str(name));
    }
    assert(texts(v@) =~= before + when(present, name@));
}

proof fn lemma_error_names_distinct()
    ensures
        "assertion_error"@ != "compilation_error"@,
        "assertion_error"@ != "import_error"@,
        "assertion_error"@ != "runtime_error"@,
        "assertion_error"@ != "test_failure"@,
        "assertion_error"@ != "timeout"@,
        "compilation_error"@ != "import_error"@,
        "compilation_error"@ != "runtime_error"@,
        "compilation_error"@ != "test_failure"@,
        "compilation_error"@ != "timeout"@,
        "import_error"@ != "runtime_error"@,
        "import_error"@ != "test_failure"@,
        "import_error"@ != "timeout"@,
        "runtime_error"@ != "test_failure"@,
        "runtime_error"@ != "timeout"@,
        "test_failure"@ != "timeout"@,
{
    reveal_strlit("assertion_error");
    reveal_strlit("compilation_error");
    reveal_strlit("import_error");
    reveal_strlit("runtime_error");
    reveal_strlit("test_failure");
    reveal_strlit("timeout");
    assert("assertion_error"@[0] != "compilation_error"@[0]);
    assert("assertion_error"@[0] != "import_error"@[0]);
    assert("assertion_error"@[0] != "runtime_error"@[0]);
    assert("assertion_error"@[0] != "test_failure"@[0]);
    assert("assertion_error"@[0] != "timeout"@[0]);
    assert("compilation_error"@[0] != "import_error"@[0]);
    assert("compilation_error"@[0] != "runtime_error"@[0]);
    assert("compilation_error"@[0] != "test_failure"@[0]);
    assert("compilation_error"@[0] != "timeout"@[0]);
    assert("import_error"@[0] != "runtime_error"@[0]);
    assert("import_error"@[0] != "test_failure"@[0]);
    assert("import_error"@[0] != "timeout"@[0]);
    assert("runtime_error"@[0] != "test_failure"@[0]);
    assert("runtime_error"@[0] != "timeout"@[0]);
    assert("test_failure"@[1] != "timeout"@[1]);
}

proof fn lemma_no_repeats_extend(xs: Seq<Seq<char>>, present: bool, name: Seq<char>)
    requires
        no_repeats(xs),
        forall|i: int| 0 <= i < xs.len() ==> xs[i] != name,
    ensures
        no_repeats(xs + when(present, name)),
{
    let ys = xs + when(present, name);
    assert forall|a: int, b: int| 0 <= a < b < ys.len() implies ys[a] != ys[b] by {
        if b >= xs.len() {
            assert(ys[b] == name);
            assert(ys[a] == xs[a]);
        } else {
            assert(ys[a] == xs[a] && ys[b] == xs[b]);
        }
    }
}

/// The error kinds of an attempt never repeat.
pub proof fn lemma_error_types_no_repeats(r: SolveResult)
    ensures
        no_repeats(error_types_spec(r)),
{
    lemma_error_names_distinct();
    let tests = r.test_results@;
    let x0 = Seq::<Seq<char>>::empty();
    let x1 = x0 + when(some_test_of_kind(tests, 2), "assertion_error"@);
    lemma_no_repeats_extend(x0, some_test_of_kind(tests, 2), "assertion_error"@);
    let p2 = message_mentions(r, "compile"@) || message_mentions(r, "syntax"@);
    let x2 = x1 + when(p2, "compilation_error"@);
    lemma_no_repeats_extend(x1, p2, "compilation_error"@);
    let x3 = x2 + when(some_test_of_kind(tests, 1), "import_error"@);
    lemma_no_repeats_extend(x2, some_test_of_kind(tests, 1), "import_error"@);
    let x4 = x3 + when(some_test_of_kind(tests, 3), "runtime_error"@);
    lemma_no_repeats_extend(x3, some_test_of_kind(tests, 3), "runtime_error"@);
    let x5 = x4 + when(message_mentions(r, "test"@), "test_failure"@);
    lemma_no_repeats_extend(x4, message_mentions(r, "test"@), "test_failure"@);
    let x6 = x5 + when(message_mentions(r, "timeout"@), "timeout"@);
    lemma_no_repeats_extend(x5, message_mentions(r, "timeout"@), "timeout"@);
    assert(x6 =~= error_types_spec(r));
}

/// The error kinds of an attempt: `timeout`, `compilation_error` and
/// `test_failure` from words in its error message; `import_error`,
/// `assertion_error` and `runtime_error` from its failed tests. Sorted, each
/// kind once.
pub fn extract_error_types(r: &SolveResult) -> (v: Vec<String>)
    ensures
        texts(v@) == error_types_spec(*r),
{
    let timeout = message_mentions_exec(r, "timeout");
    let compile = message_mentions_exec(r, "compile") || message_mentions_exec(r, "syntax");
    let test_failure = message_mentions_exec(r, "test");
    let mut import = false;
    let mut assertion = false;
    let mut runtime = false;
    let mut i: usize = 0;
    while i < r.test_results.len()
        invariant
            i <= r.test_results@.len(),
            import == (exists|k: int|
                0 <= k < i && test_error_kind(#[trigger] r.test_results@[k]) == 1),
            assertion == (exists|k: int|
                0 <= k < i && test_error_kind(#[trigger] r.test_results@[k]) == 2),
            runtime == (exists|k: int|
                0 <= k < i && test_error_kind(#[trigger] r.test_results@[k]) == 3),
        decreases r.test_results@.len() - i,
    {
        let k = test_error_kind_exec(&r.test_results[i]);
        if k == 1 {
            import = true;
        } else if k == 2 {
            assertion = true;
        } else if k == 3 {
            runtime = true;
        }
        i = i + 1;
    }
    let mut v: Vec<String> = Vec::new();
    assert(texts(v@) =~= Seq::<Seq<char>>::empty());
    push_when(&mut v, assertion, "assertion_error");
    push_when(&mut v, compile, "compilation_error");
    push_when(&mut v, import, "import_error");
    push_when(&mut v, runtime, "runtime_error");
    push_when(&mut v, test_failure, "test_failure");
    push_when(&mut v, timeout, "timeout");
    assert(texts(v@) =~= error_types_spec(*r));
    v
}

// ---------------------------------------------------------------------
// Complexity
// ---------------------------------------------------------------------

pub open spec fn min_nat(a: nat, b: nat) -> nat {
    if a < b {
        a
    } else {
        b
    }
}

/// The complexity heuristic in ten-thousandths: the description length
/// counts up to 1000 bytes for 0.4, the number of tests up to 10 for 0.4 and
/// the number of setup commands up to 5 for 0.2.
pub open spec fn complexity_spec(description_bytes: nat, tests: nat, setup_commands: nat) -> nat {
    4 * min_nat(description_bytes, 1000) + 400 * min_nat(tests, 10) + 400 * min_nat(
        setup_commands,
        5,
    )
}

/// The complexity score of a challenge, from its description length in
/// bytes, its number of tests and its number of setup commands.
pub open spec fn challenge_complexity(c: Challenge) -> nat {
    complexity_spec(byte_len(c.description@), c.tests@.len(), c.setup_commands@.len())
}

/// The complexity score of a challenge, in ten-thousandths (at most 10000).
pub fn calculate_complexity_score(c: &Challenge) -> (score: u64)
    ensures
        score == challenge_complexity(*c),
        score <= 10000,
{
    let d = str_byte_len(c.description.as_str());
    let t = c.tests.len();
    let s = c.setup_commands.len();
    let d: u64 = if d < 1000 { d as u64 } else { 1000 };
    let t: u64 = if t < 10 { t as u64 } else { 10 };
    let s: u64 = if s < 5 { s as u64 } else { 5 };
    4 * d + 400 * t + 400 * s
}

// ---------------------------------------------------------------------
// Recording attempts
// ---------------------------------------------------------------------

/// How many tests of the attempt passed.
pub open spec fn passed_count(tests: Seq<TestResult>) -> nat
    decreases tests.len(),
{
    if tests.len() == 0 {
        0
    } else {
        passed_count(tests.drop_last()) + if tests.last().passed {
            1nat
        } else {
            0nat
        }
    }
}

proof fn lemma_passed_count_bound(tests: Seq<TestResult>)
    ensures
        passed_count(tests) <= tests.len(),
    decreases tests.len(),
{
    if tests.len() > 0 {
        lemma_passed_count_bound(tests.drop_last());
    }
}

/// The number of tests of `r` that passed.
pub fn count_passed_tests(tests: &Vec<TestResult>) -> (n: usize)
    ensures
        n == passed_count(tests@),
        n <= tests@.len(),
{
    let mut n: usize = 0;
    let mut i: usize = 0;
    while i < tests.len()
        invariant
            i <= tests@.len(),
            n == passed_count(tests@.take(i as int)),
            n <= i,
        decreases tests@.len() - i,
    {
        assert(tests@.take(i + 1).drop_last() =~= tests@.take(i as int));
        if tests[i].passed {
            n = n + 1;
        }
        i = i + 1;
    }
    assert(tests@.take(i as int) =~= tests@);
    n
}

/// What `record_attempt_at` stores for an attempt at time `timestamp`.
pub open spec fn record_matches(
    rec: PerformanceRecord,
    c: Challenge,
    r: SolveResult,
    timestamp: u64,
) -> bool {
    &&& rec.timestamp == timestamp
    &&& rec.challenge_id@ == c.id@
    &&& rec.difficulty@ == c.difficulty.name_spec()
    &&& rec.language@ == c.language@
    &&& rec.success == r.success
    &&& rec.solve_time_ms == r.duration_ms
    &&& rec.test_count == r.test_results@.len()
    &&& rec.passed_tests == passed_count(r.test_results@)
    &&& rec.failed_tests == r.test_results@.len() - passed_count(r.test_results@)
    &&& texts(rec.error_types@) == error_types_spec(r)
    &&& rec.complexity_score == challenge_complexity(c)
}

/// The performance record of an attempt at `c` with outcome `r`, taken at
/// `timestamp` seconds after the Unix epoch.
pub fn make_record(c: &Challenge, r: &SolveResult, timestamp: u64) -> (rec: PerformanceRecord)
    ensures
        record_matches(rec, *c, *r, timestamp),
{
    let passed = count_passed_tests(&r.test_results);
    PerformanceRecord {
        timestamp,
        challenge_id: String::from_str(c.id.as_str()),
        difficulty: c.difficulty.name(),
        language: String::from_str(c.language.as_str()),
        success: r.success,
        solve_time_ms: r.duration_ms,
        test_count: r.test_results.len(),
        passed_tests: passed,
        failed_tests: r.test_results.len() - passed,
        error_types: extract_error_types(r),
        complexity_score: calculate_complexity_score(c),
    }
}


// ---------------------------------------------------------------------
// The tracker
// ---------------------------------------------------------------------

/// The history of recorded attempts, oldest first.
pub struct PerformanceTracker {
    records: Vec<PerformanceRecord>,
}

/// Every record lists each of its error kinds once.
pub open spec fn records_wf(rs: Seq<PerformanceRecord>) -> bool {
    forall|i: int| 0 <= i < rs.len() ==> no_repeats(texts(#[trigger] rs[i].error_types@))
}

impl View for PerformanceTracker {
    type V = Seq<PerformanceRecord>;

    closed spec fn view(&self) -> Seq<PerformanceRecord> {
        self.records@
    }
}

impl PerformanceTracker {
    /// Every recorded attempt lists each of its error kinds once.
    #[verifier::type_invariant]
    spec fn records_invariant(self) -> bool {
        records_wf(self.records@)
    }

    /// An empty tracker.
    pub fn new() -> (t: Self)
        ensures
            t@ == Seq::<PerformanceRecord>::empty(),
    {
        PerformanceTracker { records: Vec::new() }
    }

    /// Records an attempt at `challenge` with outcome `solve_result`, taken
    /// at `timestamp` seconds after the Unix epoch.
    pub fn record_attempt_at(&mut self, challenge: &Challenge, solve_result: &SolveResult, timestamp: u64)
        ensures
            final(self)@.len() == old(self)@.len() + 1,
            final(self)@.drop_last() == old(self)@,
            record_matches(final(self)@.last(), *challenge, *solve_result, timestamp),
    {
        proof {
            use_type_invariant(&*self);
            lemma_error_types_no_repeats(*solve_result);
        }
        let rec = make_record(challenge, solve_result, timestamp);
        let mut records: Vec<PerformanceRecord> = Vec::new();
        std::mem::swap(&mut records, &mut self.records);
        records.push(rec);
        self.records = records;
        assert(self@.drop_last() =~= old(self)@);
    }

    /// Records an attempt at `challenge` with outcome `solve_result`, stamped
    /// with the current time.
    pub fn record_attempt(&mut self, challenge: &Challenge, solve_result: &SolveResult)
        ensures
            final(self)@.len() == old(self)@.len() + 1,
            final(self)@.drop_last() == old(self)@,
            exists|t: u64| record_matches(final(self)@.last(), *challenge, *solve_result, t),
    {
        let now = crate::clock::unix_time_secs();
        self.record_attempt_at(challenge, solve_result, now);
    }
}


// ---------------------------------------------------------------------
// Counting over the history
// ---------------------------------------------------------------------

/// The number of successful attempts.
pub open spec fn success_count(rs: Seq<PerformanceRecord>) -> nat
    decreases rs.len(),
{
    if rs.len() == 0 {
        0
    } else {
        success_count(rs.drop_last()) + if rs.last().success {
            1nat
        } else {
            0nat
        }
    }
}

/// The value of a metric for one record: 0 stands for success (1 or 0),
/// 1 for the solve time in milliseconds, 2 for the complexity score.
pub open spec fn metric_value(r: PerformanceRecord, metric: u8) -> nat {
    if metric == 0 {
        if r.success {
            1
        } else {
            0
        }
    } else if metric == 1 {
        r.solve_time_ms as nat
    } else {
        r.complexity_score as nat
    }
}

/// The total of a metric over records.
pub open spec fn metric_sum(rs: Seq<PerformanceRecord>, metric: u8) -> nat
    decreases rs.len(),
{
    if rs.len() == 0 {
        0
    } else {
        metric_sum(rs.drop_last(), metric) + metric_value(rs.last(), metric)
    }
}

/// The difficulty names, or the languages, of the records.
pub open spec fn field_texts(rs: Seq<PerformanceRecord>, by_language: bool) -> Seq<Seq<char>> {
    rs.map_values(
        |r: PerformanceRecord|
            if by_language {
                r.language@
            } else {
                r.difficulty@
            },
    )
}

/// The number of successful records whose field is `v`.
pub open spec fn field_successes(rs: Seq<PerformanceRecord>, by_language: bool, v: Seq<char>) -> nat
    decreases rs.len(),
{
    if rs.len() == 0 {
        0
    } else {
        field_successes(rs.drop_last(), by_language, v) + if rs.last().success
            && field_texts(rs, by_language).last() == v {
            1nat
        } else {
            0nat
        }
    }
}

/// All error kinds of all records, record after record.
pub open spec fn flat_errors(rs: Seq<PerformanceRecord>) -> Seq<Seq<char>>
    decreases rs.len(),
{
    if rs.len() == 0 {
        Seq::empty()
    } else {
        flat_errors(rs.drop_last()) + texts(rs.last().error_types@)
    }
}

/// The distinct error kinds, in order of first occurrence.
pub open spec fn error_kinds(rs: Seq<PerformanceRecord>) -> Seq<Seq<char>> {
    distinct_first(flat_errors(rs))
}

/// The number of occurrences of each distinct error kind.
pub open spec fn error_counts(rs: Seq<PerformanceRecord>) -> Seq<usize> {
    error_kinds(rs).map_values(|e: Seq<char>| count_in(flat_errors(rs), e) as usize)
}

proof fn lemma_success_count_bound(rs: Seq<PerformanceRecord>)
    ensures
        success_count(rs) <= rs.len(),
    decreases rs.len(),
{
    if rs.len() > 0 {
        lemma_success_count_bound(rs.drop_last());
    }
}

proof fn lemma_field_successes_bound(rs: Seq<PerformanceRecord>, by_language: bool, v: Seq<char>)
    ensures
        field_successes(rs, by_language, v) <= count_in(field_texts(rs, by_language), v),
    decreases rs.len(),
{
    if rs.len() > 0 {
        assert(field_texts(rs, by_language).drop_last() =~= field_texts(rs.drop_last(), by_language));
        lemma_field_successes_bound(rs.drop_last(), by_language, v);
    }
}

proof fn lemma_metric_sum_bound(rs: Seq<PerformanceRecord>, metric: u8)
    ensures
        metric_sum(rs, metric) <= rs.len() * 0xFFFF_FFFF_FFFF_FFFFnat,
    decreases rs.len(),
{
    if rs.len() > 0 {
        lemma_metric_sum_bound(rs.drop_last(), metric);
        let n = rs.drop_last().len();
        assert(metric_value(rs.last(), metric) <= 0xFFFF_FFFF_FFFF_FFFFnat);
        assert(n * 0xFFFF_FFFF_FFFF_FFFFnat + 0xFFFF_FFFF_FFFF_FFFFnat == (n + 1)
            * 0xFFFF_FFFF_FFFF_FFFFnat) by (nonlinear_arith);
    }
}

proof fn lemma_product_fits(n: nat)
    requires
        n <= 0xFFFF_FFFF_FFFF_FFFFnat,
    ensures
        n * 0xFFFF_FFFF_FFFF_FFFFnat <= 0xFFFF_FFFF_FFFF_FFFE_0000_0000_0000_0001nat,
{
    assert(n * 0xFFFF_FFFF_FFFF_FFFFnat <= 0xFFFF_FFFF_FFFF_FFFFnat * 0xFFFF_FFFF_FFFF_FFFFnat)
        by (nonlinear_arith)
        requires
            n <= 0xFFFF_FFFF_FFFF_FFFFnat,
    ;
}

proof fn lemma_flat_step(rs: Seq<PerformanceRecord>, i: int)
    requires
        0 <= i < rs.len(),
    ensures
        flat_errors(rs.take(i + 1)) == flat_errors(rs.take(i)) + texts(rs[i].error_types@),
{
    assert(rs.take(i + 1).drop_last() =~= rs.take(i));
}

proof fn lemma_flat_count_bound(rs: Seq<PerformanceRecord>, x: Seq<char>)
    requires
        records_wf(rs),
    ensures
        count_in(flat_errors(rs), x) <= rs.len(),
    decreases rs.len(),
{
    if rs.len() > 0 {
        let p = rs.drop_last();
        assert(records_wf(p)) by {
            assert forall|i: int| 0 <= i < p.len() implies no_repeats(
                texts(#[trigger] p[i].error_types@),
            ) by {
                assert(p[i] == rs[i]);
            }
        }
        lemma_flat_count_bound(p, x);
        lemma_count_concat(flat_errors(p), texts(rs.last().error_types@), x);
        assert(no_repeats(texts(rs[rs.len() - 1].error_types@)));
        lemma_count_no_repeats(texts(rs.last().error_types@), x);
    }
}

/// Finds the position of `x` among `v`.
fn find_text(v: &Vec<String>, x: &String) -> (r: Option<usize>)
    ensures
        r matches Some(j) ==> j < v@.len() && v@[j as int]@ == x@,
        r is None ==> !texts(v@).contains(x@),
{
    let mut j: usize = 0;
    while j < v.len()
        invariant
            j <= v@.len(),
            forall|k: int| 0 <= k < j ==> v@[k]@ != x@,
        decreases v@.len() - j,
    {
        if v[j] == *x {
            return Some(j);
        }
        j = j + 1;
    }
    assert(!texts(v@).contains(x@)) by {
        if texts(v@).contains(x@) {
            let k = choose|k: int| 0 <= k < texts(v@).len() && texts(v@)[k] == x@;
            assert(v@[k]@ == x@);
        }
    }
    None
}

/// Clones each string of `v`.
fn clone_strings(v: &Vec<String>) -> (r: Vec<String>)
    ensures
        texts(r@) == texts(v@),
{
    let mut r: Vec<String> = Vec::new();
    let mut i: usize = 0;
    while i < v.len()
        invariant
            i <= v@.len(),
            r@.len() == i,
            forall|k: int| 0 <= k < i ==> (#[trigger] r@[k])@ == v@[k]@,
        decreases v@.len() - i,
    {
        r.push(v[i].clone());
        i = i + 1;
    }
    assert(texts(r@) =~= texts(v@));
    r
}

/// The number of successful records.
fn count_successes(rs: &Vec<PerformanceRecord>) -> (n: usize)
    ensures
        n == success_count(rs@),
{
    let mut n: usize = 0;
    let mut i: usize = 0;
    while i < rs.len()
        invariant
            i <= rs@.len(),
            n == success_count(rs@.take(i as int)),
        decreases rs@.len() - i,
    {
        assert(rs@.take(i + 1).drop_last() =~= rs@.take(i as int));
        proof {
            lemma_success_count_bound(rs@.take(i as int));
        }
        if rs[i].success {
            n = n + 1;
        }
        i = i + 1;
    }
    assert(rs@.take(i as int) =~= rs@);
    n
}

/// The total of a metric over `rs[from..to]`.
fn metric_total(rs: &Vec<PerformanceRecord>, metric: u8, from: usize, to: usize) -> (total: u128)
    requires
        from <= to <= rs@.len(),
    ensures
        total == metric_sum(rs@.subrange(from as int, to as int), metric),
{
    let mut total: u128 = 0;
    let mut i = from;
    while i < to
        invariant
            from <= i <= to <= rs@.len(),
            total == metric_sum(rs@.subrange(from as int, i as int), metric),
        decreases to - i,
    {
        let ghost part = rs@.subrange(from as int, i + 1);
        assert(part.drop_last() =~= rs@.subrange(from as int, i as int));
        proof {
            lemma_metric_sum_bound(part, metric);
            lemma_product_fits(part.len());
        }
        let r = &rs[i];
        let v: u64 = if metric == 0 {
            if r.success {
                1
            } else {
                0
            }
        } else if metric == 1 {
            r.solve_time_ms
        } else {
            r.complexity_score
        };
        total = total + v as u128;
        i = i + 1;
    }
    total
}


/// The attempts and successes for one value of a field (a difficulty or a
/// language): its success rate is `successes / attempts`.
#[derive(Debug)]
pub struct FieldSuccessRate {
    pub value: String,
    pub attempts: usize,
    pub successes: usize,
}

/// `rates` lists, for each distinct value of the field in order of first
/// occurrence, how many records have it and how many of those succeeded.
pub open spec fn field_rates_match(
    rates: Seq<FieldSuccessRate>,
    rs: Seq<PerformanceRecord>,
    by_language: bool,
) -> bool {
    let values = distinct_first(field_texts(rs, by_language));
    &&& rates.len() == values.len()
    &&& forall|j: int|
        0 <= j < rates.len() ==> {
            &&& (#[trigger] rates[j]).value@ == values[j]
            &&& rates[j].attempts == count_in(field_texts(rs, by_language), values[j])
            &&& rates[j].successes == field_successes(rs, by_language, values[j])
        }
}

proof fn lemma_field_step(rs: Seq<PerformanceRecord>, by_language: bool, i: int, v: Seq<char>)
    requires
        0 <= i < rs.len(),
    ensures
        field_texts(rs.take(i + 1), by_language) == field_texts(rs.take(i), by_language).push(
            field_texts(rs, by_language)[i],
        ),
        field_successes(rs.take(i + 1), by_language, v) == field_successes(
            rs.take(i),
            by_language,
            v,
        ) + if rs[i].success && field_texts(rs, by_language)[i] == v {
            1nat
        } else {
            0nat
        },
{
    assert(rs.take(i + 1).drop_last() =~= rs.take(i));
    assert(field_texts(rs.take(i + 1), by_language) =~= field_texts(rs.take(i), by_language).push(
        field_texts(rs, by_language)[i],
    ));
}

/// Success rates per difficulty (or per language, when `by_language`).
pub fn success_rates_by_field(rs: &Vec<PerformanceRecord>, by_language: bool) -> (rates: Vec<
    FieldSuccessRate,
>)
    ensures
        field_rates_match(rates@, rs@, by_language),
{
    let mut values: Vec<String> = Vec::new();
    let mut attempts: Vec<usize> = Vec::new();
    let mut successes: Vec<usize> = Vec::new();
    let mut i: usize = 0;
    while i < rs.len()
        invariant
            i <= rs@.len(),
            texts(values@) == distinct_first(field_texts(rs@.take(i as int), by_language)),
            attempts@.len() == values@.len(),
            successes@.len() == values@.len(),
            forall|j: int|
                0 <= j < values@.len() ==> #[trigger] attempts@[j] == count_in(
                    field_texts(rs@.take(i as int), by_language),
                    values@[j]@,
                ),
            forall|j: int|
                0 <= j < values@.len() ==> #[trigger] successes@[j] == field_successes(
                    rs@.take(i as int),
                    by_language,
                    values@[j]@,
                ),
        decreases rs@.len() - i,
    {
        let ghost pre = field_texts(rs@.take(i as int), by_language);
        let x: &String = if by_language {
            &rs[i].language
        } else {
            &rs[i].difficulty
        };
        proof {
            lemma_distinct_first(pre);
            assert(x@ == field_texts(rs@, by_language)[i as int]);
            assert forall|v: Seq<char>| true implies field_texts(rs@.take(i + 1), by_language) == pre.push(x@)
                && field_successes(rs@.take(i + 1), by_language, v) == field_successes(
                rs@.take(i as int),
                by_language,
                v,
            ) + if rs@[i as int].success && x@ == v {
                1nat
            } else {
                0nat
            } by {
                lemma_field_step(rs@, by_language, i as int, v);
            }
        }
        let ok: usize = if rs[i].success {
            1
        } else {
            0
        };
        match find_text(&values, x) {
            Some(j) => {
                proof {
                    assert(texts(values@)[j as int] == x@);
                    lemma_count_push(pre, x@, x@);
                    lemma_count_bound(pre.push(x@), x@);
                    lemma_field_successes_bound(rs@.take(i + 1), by_language, x@);
                    assert forall|k: int| 0 <= k < values@.len() implies count_in(pre.push(x@), values@[k]@)
                        == count_in(pre, values@[k]@) + if k == j {
                        1nat
                    } else {
                        0nat
                    } by {
                        lemma_count_push(pre, x@, values@[k]@);
                        if k != j {
                            assert(texts(values@)[k] != texts(values@)[j as int]);
                        }
                    }
                }
                let a = attempts[j];
                let s_ = successes[j];
                attempts.set(j, a + 1);
                successes.set(j, s_ + ok);
                proof {
                    assert(distinct_first(pre.push(x@)) == distinct_first(pre)) by {
                        assert(pre.push(x@).drop_last() =~= pre);
                        assert(distinct_first(pre).contains(x@)) by {
                            assert(distinct_first(pre)[j as int] == x@);
                        }
                    }
                }
            },
            None => {
                proof {
                    assert(!pre.contains(x@));
                    lemma_count_absent(pre, x@);
                    lemma_count_push(pre, x@, x@);
                    lemma_field_successes_bound(rs@.take(i as int), by_language, x@);
                    assert forall|k: int| 0 <= k < values@.len() implies count_in(pre.push(x@), values@[k]@)
                        == count_in(pre, values@[k]@) by {
                        lemma_count_push(pre, x@, values@[k]@);
                        assert(texts(values@)[k] == values@[k]@);
                    }
                    assert(pre.push(x@).drop_last() =~= pre);
                }
                values.push(x.clone());
                attempts.push(1);
                successes.push(ok);
                proof {
                    assert(texts(values@) =~= distinct_first(pre).push(x@));
                }
            },
        }
        i = i + 1;
    }
    assert(rs@.take(i as int) =~= rs@);
    let mut rates: Vec<FieldSuccessRate> = Vec::new();
    let mut k: usize = 0;
    while k < values.len()
        invariant
            k <= values@.len(),
            attempts@.len() == values@.len(),
            successes@.len() == values@.len(),
            texts(values@) == distinct_first(field_texts(rs@, by_language)),
            forall|j: int|
                0 <= j < values@.len() ==> #[trigger] attempts@[j] == count_in(
                    field_texts(rs@, by_language),
                    values@[j]@,
                ),
            forall|j: int|
                0 <= j < values@.len() ==> #[trigger] successes@[j] == field_successes(
                    rs@,
                    by_language,
                    values@[j]@,
                ),
            rates@.len() == k,
            forall|j: int|
                0 <= j < k ==> {
                    &&& (#[trigger] rates@[j]).value@ == values@[j]@
                    &&& rates@[j].attempts == attempts@[j]
                    &&& rates@[j].successes == successes@[j]
                },
        decreases values@.len() - k,
    {
        rates.push(
            FieldSuccessRate {
                value: values[k].clone(),
                attempts: attempts[k],
                successes: successes[k],
            },
        );
        k = k + 1;
    }
    proof {
        assert forall|j: int| 0 <= j < rates@.len() implies (#[trigger] rates@[j]).value@
            == distinct_first(field_texts(rs@, by_language))[j] by {
            assert(texts(values@)[j] == values@[j]@);
        }
    }
    rates
}


/// The distinct error kinds of the history in order of first occurrence,
/// with how often each occurs.
fn tally_errors(rs: &Vec<PerformanceRecord>) -> (res: (Vec<String>, Vec<usize>))
    requires
        records_wf(rs@),
    ensures
        texts(res.0@) == error_kinds(rs@),
        res.1@ == error_counts(rs@),
{
    let mut names: Vec<String> = Vec::new();
    let mut counts: Vec<usize> = Vec::new();
    let mut i: usize = 0;
    while i < rs.len()
        invariant
            i <= rs@.len(),
            records_wf(rs@),
            texts(names@) == distinct_first(flat_errors(rs@.take(i as int))),
            counts@.len() == names@.len(),
            forall|j: int|
                0 <= j < names@.len() ==> #[trigger] counts@[j] == count_in(
                    flat_errors(rs@.take(i as int)),
                    names@[j]@,
                ),
        decreases rs@.len() - i,
    {
        let types = &rs[i].error_types;
        let ghost base = flat_errors(rs@.take(i as int));
        let ghost all = texts(types@);
        proof {
            lemma_flat_step(rs@, i as int);
            assert(records_wf(rs@.take(i + 1))) by {
                assert forall|q: int| 0 <= q < rs@.take(i + 1).len() implies no_repeats(
                    texts(#[trigger] rs@.take(i + 1)[q].error_types@),
                ) by {
                    assert(rs@.take(i + 1)[q] == rs@[q]);
                }
            }
        }
        let mut k: usize = 0;
        assert(base + all.take(0) =~= base);
        while k < types.len()
            invariant
                i < rs@.len() == rs.len(),
                k <= types@.len(),
                types@ == rs@[i as int].error_types@,
                all == texts(types@),
                base == flat_errors(rs@.take(i as int)),
                flat_errors(rs@.take(i + 1)) == base + all,
                records_wf(rs@.take(i + 1)),
                texts(names@) == distinct_first(base + all.take(k as int)),
                counts@.len() == names@.len(),
                forall|j: int|
                    0 <= j < names@.len() ==> #[trigger] counts@[j] == count_in(
                        base + all.take(k as int),
                        names@[j]@,
                    ),
            decreases types@.len() - k,
        {
            let x = &types[k];
            let ghost pre = base + all.take(k as int);
            proof {
                assert(x@ == all[k as int]);
                assert(base + all.take(k + 1) =~= pre.push(x@));
                assert(pre.push(x@).drop_last() =~= pre);
                lemma_distinct_first(pre);
                lemma_flat_count_bound(rs@.take(i + 1), x@);
                let whole = base + all;
                assert(whole =~= pre.push(x@) + all.skip(k + 1));
                lemma_count_concat(pre.push(x@), all.skip(k + 1), x@);
            }
            match find_text(&names, x) {
                Some(j) => {
                    proof {
                        assert(texts(names@)[j as int] == x@);
                        lemma_count_push(pre, x@, x@);
                        assert forall|q: int| 0 <= q < names@.len() implies count_in(
                            pre.push(x@),
                            names@[q]@,
                        ) == count_in(pre, names@[q]@) + if q == j {
                            1nat
                        } else {
                            0nat
                        } by {
                            lemma_count_push(pre, x@, names@[q]@);
                            if q != j {
                                assert(texts(names@)[q] != texts(names@)[j as int]);
                            }
                        }
                        assert(distinct_first(pre).contains(x@)) by {
                            assert(distinct_first(pre)[j as int] == x@);
                        }
                    }
                    let c = counts[j];
                    assert(c + 1 <= i + 1);
                    counts.set(j, c + 1);
                },
                None => {
                    proof {
                        assert(!pre.contains(x@));
                        lemma_count_absent(pre, x@);
                        lemma_count_push(pre, x@, x@);
                        assert forall|q: int| 0 <= q < names@.len() implies count_in(
                            pre.push(x@),
                            names@[q]@,
                        ) == count_in(pre, names@[q]@) by {
                            lemma_count_push(pre, x@, names@[q]@);
                            assert(texts(names@)[q] == names@[q]@);
                        }
                    }
                    names.push(x.clone());
                    counts.push(1);
                    proof {
                        assert(texts(names@) =~= distinct_first(pre).push(x@));
                    }
                },
            }
            k = k + 1;
        }
        assert(all.take(k as int) =~= all);
        i = i + 1;
    }
    assert(rs@.take(i as int) =~= rs@);
    proof {
        assert(counts@ =~= error_counts(rs@)) by {
            assert forall|j: int| 0 <= j < counts@.len() implies counts@[j] == error_counts(rs@)[j] by {
                assert(texts(names@)[j] == names@[j]@);
                lemma_flat_count_bound(rs@, names@[j]@);
            }
        }
    }
    (names, counts)
}

/// `errors` lists the up to ten most frequent error kinds with their
/// counts, most frequent first; among equally frequent kinds the one seen
/// first comes first.
pub open spec fn most_common_errors_match(errors: Seq<(String, usize)>, rs: Seq<PerformanceRecord>) -> bool {
    exists|sel: Seq<usize>|
        {
            &&& is_top_selection(error_counts(rs), sel, 10)
            &&& errors.len() == sel.len()
            &&& forall|t: int|
                0 <= t < sel.len() ==> {
                    &&& (#[trigger] errors[t]).0@ == error_kinds(rs)[sel[t] as int]
                    &&& errors[t].1 == error_counts(rs)[sel[t] as int]
                }
        }
}

/// The up to ten most frequent error kinds with their counts.
fn most_common_errors(rs: &Vec<PerformanceRecord>) -> (errors: Vec<(String, usize)>)
    requires
        records_wf(rs@),
    ensures
        most_common_errors_match(errors@, rs@),
{
    let (names, counts) = tally_errors(rs);
    let sel = select_top(&counts, 10);
    let mut errors: Vec<(String, usize)> = Vec::new();
    let mut t: usize = 0;
    while t < sel.len()
        invariant
            t <= sel@.len(),
            is_top_selection(counts@, sel@, 10),
            counts@ == error_counts(rs@),
            texts(names@) == error_kinds(rs@),
            counts@.len() == names@.len(),
            errors@.len() == t,
            forall|u: int|
                0 <= u < t ==> {
                    &&& (#[trigger] errors@[u]).0@ == error_kinds(rs@)[sel@[u] as int]
                    &&& errors@[u].1 == error_counts(rs@)[sel@[u] as int]
                },
        decreases sel@.len() - t,
    {
        let p = sel[t];
        assert(sel@[t as int] < counts@.len());
        assert(texts(names@)[p as int] == names@[p as int]@);
        errors.push((names[p].clone(), counts[p]));
        t = t + 1;
    }
    assert(most_common_errors_match(errors@, rs@));
    errors
}


// ---------------------------------------------------------------------
// Trends
// ---------------------------------------------------------------------

/// A metric's movement between the older and the newer half of the
/// history. Its change, in percent, is
/// `(second_half_total - first_half_total) * 100 / first_half_total`
/// (zero when the first total is zero); both halves hold the same number of
/// records. The confidence is in tenths.
#[derive(Debug)]
pub struct PerformanceTrend {
    pub metric: String,
    pub direction: String,
    pub first_half_total: u128,
    pub second_half_total: u128,
    pub confidence_tenths: u8,
}

/// The totals of a metric over the first and over the last `len / 2`
/// records.
pub open spec fn half_totals(rs: Seq<PerformanceRecord>, metric: u8) -> (nat, nat) {
    let n = rs.len();
    let h = n / 2;
    (metric_sum(rs.take(h as int), metric), metric_sum(rs.subrange(n - h, n as int), metric))
}

/// 0 when the change stays within 5 percent (or the first total is zero),
/// 1 when it rises further, 2 when it falls further.
pub open spec fn trend_direction(first: nat, second: nat) -> int {
    let d = second - first;
    let abs = if d < 0 {
        -d
    } else {
        d
    };
    if first == 0 || 20 * abs < first {
        0
    } else if second > first {
        1
    } else {
        2
    }
}

pub open spec fn direction_name(direction: int) -> Seq<char> {
    if direction == 0 {
        "stable"@
    } else if direction == 1 {
        "improving"@
    } else {
        "declining"@
    }
}

pub open spec fn metric_name(metric: u8) -> Seq<char> {
    if metric == 0 {
        "success_rate"@
    } else if metric == 1 {
        "solve_time_ms"@
    } else {
        "complexity_score"@
    }
}

/// `t` is the trend of `metric` over `rs`.
pub open spec fn trend_matches(t: PerformanceTrend, rs: Seq<PerformanceRecord>, metric: u8) -> bool {
    let (first, second) = half_totals(rs, metric);
    let dir = trend_direction(first, second);
    &&& t.metric@ == metric_name(metric)
    &&& t.first_half_total == first
    &&& t.second_half_total == second
    &&& t.direction@ == direction_name(dir)
    &&& t.confidence_tenths == if dir == 0 {
        7u8
    } else {
        8u8
    }
}

/// With fewer than five records there are no trends; otherwise one each for
/// the success rate, the solve time and the complexity score.
pub open spec fn trends_match(ts: Seq<PerformanceTrend>, rs: Seq<PerformanceRecord>) -> bool {
    if rs.len() < 5 {
        ts.len() == 0
    } else {
        &&& ts.len() == 3
        &&& trend_matches(ts[0], rs, 0)
        &&& trend_matches(ts[1], rs, 1)
        &&& trend_matches(ts[2], rs, 2)
    }
}

proof fn lemma_stable_test(d: nat, s: nat)
    requires
        s > 0,
    ensures
        (20 * d < s) <==> (d <= (s - 1) / 20),
{
    let q = (s - 1) / 20;
    assert((s - 1) == 20 * q + (s - 1) % 20) by (nonlinear_arith)
        requires
            q == (s - 1) / 20,
    ;
    assert(0 <= (s - 1) % 20 < 20) by (nonlinear_arith)
        requires
            s > 0,
    ;
    if d <= q {
        assert(20 * d <= 20 * q) by (nonlinear_arith)
            requires
                d <= q,
        ;
    } else {
        assert(20 * d >= 20 * (q + 1)) by (nonlinear_arith)
            requires
                d >= q + 1,
        ;
    }
}

fn metric_trend(rs: &Vec<PerformanceRecord>, metric: u8) -> (t: PerformanceTrend)
    requires
        metric < 3,
    ensures
        trend_matches(t, rs@, metric),
{
    let n = rs.len();
    let h = n / 2;
    let first = metric_total(rs, metric, 0, h);
    let second = metric_total(rs, metric, n - h, n);
    assert(rs@.subrange(0, h as int) =~= rs@.take(h as int));
    let dir: u8 = if first == 0 {
        0
    } else {
        let d = if second >= first {
            second - first
        } else {
            first - second
        };
        proof {
            lemma_stable_test(d as nat, first as nat);
        }
        if d <= (first - 1) / 20 {
            0
        } else if second > first {
            1
        } else {
            2
        }
    };
    let name = if metric == 0 {
        String::from_str("success_rate")
    } else if metric == 1 {
        String::from_str("solve_time_ms")
    } else {
        String::from_str("complexity_score")
    };
    let direction = if dir == 0 {
        String::from_str("stable")
    } else if dir == 1 {
        String::from_str("improving")
    } else {
        String::from_str("declining")
    };
    PerformanceTrend {
        metric: name,
        direction,
        first_half_total: first,
        second_half_total: second,
        confidence_tenths: if dir == 0 {
            7
        } else {
            8
        },
    }
}

/// The trends of the history: none with fewer than five records.
fn performance_trends(rs: &Vec<PerformanceRecord>) -> (ts: Vec<PerformanceTrend>)
    ensures
        trends_match(ts@, rs@),
{
    let mut ts: Vec<PerformanceTrend> = Vec::new();
    if rs.len() < 5 {
        return ts;
    }
    ts.push(metric_trend(rs, 0));
    ts.push(metric_trend(rs, 1));
    ts.push(metric_trend(rs, 2));
    ts
}


// ---------------------------------------------------------------------
// Recommendations
// ---------------------------------------------------------------------

/// The advice drawn from the overall success rate: below one half, or
/// above four fifths.
pub open spec fn rate_advice(successes: nat, total: nat) -> Seq<Seq<char>> {
    if 2 * successes < total {
        seq![
            "Overall success rate is below 50%. Consider reviewing code generation prompts or improving test validation."@,
        ]
    } else if 5 * successes > 4 * total {
        seq!["Excellent success rate! Consider increasing challenge difficulty for more growth."@]
    } else {
        Seq::empty()
    }
}

/// The advice drawn from the trends: a success rate falling by more than
/// 10 percent, and a solve-time trend falling by more than 15 percent.
pub open spec fn trend_advice(rs: Seq<PerformanceRecord>) -> Seq<Seq<char>> {
    if rs.len() < 5 {
        Seq::empty()
    } else {
        let (a1, a2) = half_totals(rs, 0);
        let (b1, b2) = half_totals(rs, 1);
        when(
            trend_direction(a1, a2) == 2 && 10 * (a1 - a2) > a1,
            "Success rate is declining. Review recent failed attempts for patterns."@,
        ) + when(
            trend_direction(b1, b2) == 2 && 20 * (b1 - b2) > 3 * b1,
            "Solve times are increasing. Consider optimizing LLM prompts or Docker execution."@,
        )
    }
}

/// The advice about the most common error, when it occurs more often than
/// a third of the number of attempts.
pub open spec fn error_advice(errors: Seq<(String, usize)>, total: nat) -> Seq<Seq<char>> {
    if errors.len() > 0 && errors[0].1 > total / 3 {
        seq![
            "Most common error is '"@ + errors[0].0@ + "' ("@ + decimal(((errors[0].1 * 100) as nat) / total)
                + "% of attempts). Focus optimization here."@,
        ]
    } else {
        Seq::empty()
    }
}

/// All advice, or a note that all looks stable when there is none.
pub open spec fn recommendations_spec(rs: Seq<PerformanceRecord>, errors: Seq<(String, usize)>) -> Seq<Seq<char>> {
    let all = rate_advice(success_count(rs), rs.len()) + trend_advice(rs) + error_advice(
        errors,
        rs.len(),
    );
    if all.len() == 0 {
        seq!["Performance looks stable. Continue monitoring trends."@]
    } else {
        all
    }
}

proof fn lemma_tenfold_test(e: nat, s: nat)
    ensures
        (10 * e > s) <==> (e > s / 10),
{
    let q = s / 10;
    assert(s == 10 * q + s % 10 && s % 10 < 10) by (nonlinear_arith)
        requires
            q == s / 10,
    ;
    if e > q {
        assert(10 * e >= 10 * (q + 1)) by (nonlinear_arith)
            requires
                e >= q + 1,
        ;
    } else {
        assert(10 * e <= 10 * q) by (nonlinear_arith)
            requires
                e <= q,
        ;
    }
}

proof fn lemma_three_twentieths_test(e: nat, s: nat)
    ensures
        (20 * e > 3 * s) <==> (e > 3 * (s / 20) + (3 * (s % 20)) / 20),
{
    let q = s / 20;
    let r = s % 20;
    assert(s == 20 * q + r && r < 20) by (nonlinear_arith)
        requires
            q == s / 20,
            r == s % 20,
    ;
    let w = (3 * r) / 20;
    assert(3 * r == 20 * w + (3 * r) % 20 && (3 * r) % 20 < 20) by (nonlinear_arith)
        requires
            w == (3 * r) / 20,
    ;
    let f = 3 * q + w;
    assert(3 * s == 20 * f + (3 * r) % 20) by (nonlinear_arith)
        requires
            s == 20 * q + r,
            3 * r == 20 * w + (3 * r) % 20,
            f == 3 * q + w,
    ;
    if e > f {
        assert(20 * e >= 20 * (f + 1)) by (nonlinear_arith)
            requires
                e >= f + 1,
        ;
    } else {
        assert(20 * e <= 20 * f) by (nonlinear_arith)
            requires
                e <= f,
        ;
    }
}

fn push_advice(v: &mut Vec<String>, present: bool, text: &str)
    ensures
        texts(final(v)@) == texts(old(v)@) + when(present, text@),
{
    push_when(v, present, text);
}

/// The recommendations for a history with `successes` successful attempts
/// among its records, its trends, and its most common errors.
fn generate_recommendations(
    rs: &Vec<PerformanceRecord>,
    successes: usize,
    trends: &Vec<PerformanceTrend>,
    errors: &Vec<(String, usize)>,
) -> (v: Vec<String>)
    requires
        rs@.len() > 0,
        successes == success_count(rs@),
        trends_match(trends@, rs@),
        forall|t: int| 0 <= t < errors@.len() ==> (#[trigger] errors@[t]).1 <= rs@.len(),
    ensures
        texts(v@) == recommendations_spec(rs@, errors@),
{
    let n = rs.len();
    proof {
        lemma_success_count_bound(rs@);
    }
    let mut v: Vec<String> = Vec::new();
    assert(texts(v@) =~= Seq::<Seq<char>>::empty());
    if successes < n - successes {
        v.push(
            String::from_str(
                "Overall success rate is below 50%. Consider reviewing code generation prompts or improving test validation.",
            ),
        );
    } else if successes / 4 >= n / 5 && (successes / 4 > n / 5 || successes % 4 * 5 > n % 5 * 4) {
        v.push(
            String::from_str(
                "Excellent success rate! Consider increasing challenge difficulty for more growth.",
            ),
        );
    }
    assert(texts(v@) =~= rate_advice(success_count(rs@), rs@.len())) by {
        let sc = successes as nat;
        let nn = n as nat;
        assert(sc == 4 * (sc / 4) + sc % 4 && sc % 4 < 4) by (nonlinear_arith);
        assert(nn == 5 * (nn / 5) + nn % 5 && nn % 5 < 5) by (nonlinear_arith);
        assert((5 * sc > 4 * nn) <==> (sc / 4 >= nn / 5 && (sc / 4 > nn / 5 || sc % 4 * 5 > nn
            % 5 * 4))) by (nonlinear_arith)
            requires
                sc == 4 * (sc / 4) + sc % 4 && sc % 4 < 4,
                nn == 5 * (nn / 5) + nn % 5 && nn % 5 < 5,
        ;
    }
    let ghost after_rate = texts(v@);
    if n >= 5 {
        let a1 = trends[0].first_half_total;
        let a2 = trends[0].second_half_total;
        let b1 = trends[1].first_half_total;
        let b2 = trends[1].second_half_total;
        let a_declining = a1 != 0 && a2 < a1 && !(a1 - a2 <= (a1 - 1) / 20);
        let b_declining = b1 != 0 && b2 < b1 && !(b1 - b2 <= (b1 - 1) / 20);
        proof {
            if a1 != 0 {
                lemma_stable_test((a1 - a2) as nat, a1 as nat);
                lemma_stable_test((a2 - a1) as nat, a1 as nat);
            }
            if b1 != 0 {
                lemma_stable_test((b1 - b2) as nat, b1 as nat);
                lemma_stable_test((b2 - b1) as nat, b1 as nat);
            }
            if a2 < a1 {
                lemma_tenfold_test((a1 - a2) as nat, a1 as nat);
            }
            if b2 < b1 {
                lemma_three_twentieths_test((b1 - b2) as nat, b1 as nat);
            }
        }
        let success_falls = a_declining && a1 - a2 > a1 / 10;
        let time_falls = b_declining && b1 - b2 > 3 * (b1 / 20) + (3 * (b1 % 20)) / 20;
        push_advice(
            &mut v,
            success_falls,
            "Success rate is declining. Review recent failed attempts for patterns.",
        );
        push_advice(
            &mut v,
            time_falls,
            "Solve times are increasing. Consider optimizing LLM prompts or Docker execution.",
        );
    }
    assert(texts(v@) =~= after_rate + trend_advice(rs@));
    let ghost after_trends = texts(v@);
    if errors.len() > 0 && errors[0].1 > n / 3 {
        let count = errors[0].1;
        let pct: u64 = ((count as u128 * 100) / (n as u128)) as u64;
        assert(pct == ((count * 100) as nat) / (n as nat)) by {
            assert(count * 100 <= n * 100) by (nonlinear_arith)
                requires
                    count <= n,
            ;
            assert((count * 100) / (n as int) <= 100) by (nonlinear_arith)
                requires
                    count * 100 <= n * 100,
                    n > 0,
            ;
        }
        let mut msg = String::from_str("Most common error is '");
        msg.append(errors[0].0.as_str());
        msg.append("' (");
        append_decimal(&mut msg, pct);
        msg.append("% of attempts). Focus optimization here.");
        v.push(msg);
    }
    assert(texts(v@) =~= after_trends + error_advice(errors@, rs@.len()));
    if v.len() == 0 {
        v.push(String::from_str("Performance looks stable. Continue monitoring trends."));
    }
    assert(texts(v@) =~= recommendations_spec(rs@, errors@));
    v
}


// ---------------------------------------------------------------------
// The analysis report
// ---------------------------------------------------------------------

/// An analysis of the recorded history.
///
/// The overall success rate is `successful_attempts / total_attempts`; the
/// average complexity, in ten-thousandths, is
/// `total_complexity_score / total_attempts`.
#[derive(Debug)]
pub struct PerformanceAnalysis {
    pub total_attempts: usize,
    pub successful_attempts: usize,
    pub average_solve_time_ms: u64,
    pub total_complexity_score: u128,
    pub success_rate_by_difficulty: Vec<FieldSuccessRate>,
    pub success_rate_by_language: Vec<FieldSuccessRate>,
    pub most_common_errors: Vec<(String, usize)>,
    pub performance_trends: Vec<PerformanceTrend>,
    pub recommendations: Vec<String>,
}

/// `a` is the analysis of the history `rs`.
pub open spec fn analysis_matches(a: PerformanceAnalysis, rs: Seq<PerformanceRecord>) -> bool {
    if rs.len() == 0 {
        &&& a.total_attempts == 0
        &&& a.successful_attempts == 0
        &&& a.average_solve_time_ms == 0
        &&& a.total_complexity_score == 0
        &&& a.success_rate_by_difficulty@.len() == 0
        &&& a.success_rate_by_language@.len() == 0
        &&& a.most_common_errors@.len() == 0
        &&& a.performance_trends@.len() == 0
        &&& a.recommendations@.len() == 0
    } else {
        &&& a.total_attempts == rs.len()
        &&& a.successful_attempts == success_count(rs)
        &&& a.average_solve_time_ms == metric_sum(rs, 1) / rs.len()
        &&& a.total_complexity_score == metric_sum(rs, 2)
        &&& field_rates_match(a.success_rate_by_difficulty@, rs, false)
        &&& field_rates_match(a.success_rate_by_language@, rs, true)
        &&& most_common_errors_match(a.most_common_errors@, rs)
        &&& trends_match(a.performance_trends@, rs)
        &&& texts(a.recommendations@) == recommendations_spec(rs, a.most_common_errors@)
    }
}

impl PerformanceTracker {
    /// Analyses the recorded history.
    pub fn generate_analysis_report(&self) -> (a: PerformanceAnalysis)
        ensures
            analysis_matches(a, self@),
    {
        proof {
            use_type_invariant(self);
        }
        let rs = &self.records;
        let n = rs.len();
        if n == 0 {
            return PerformanceAnalysis {
                total_attempts: 0,
                successful_attempts: 0,
                average_solve_time_ms: 0,
                total_complexity_score: 0,
                success_rate_by_difficulty: Vec::new(),
                success_rate_by_language: Vec::new(),
                most_common_errors: Vec::new(),
                performance_trends: Vec::new(),
                recommendations: Vec::new(),
            };
        }
        let successes = count_successes(rs);
        let total_time = metric_total(rs, 1, 0, n);
        let total_complexity = metric_total(rs, 2, 0, n);
        assert(rs@.subrange(0, n as int) =~= rs@);
        proof {
            lemma_metric_sum_bound(rs@, 1);
            let t = metric_sum(rs@, 1);
            assert(t / (n as nat) <= 0xFFFF_FFFF_FFFF_FFFFnat) by (nonlinear_arith)
                requires
                    t <= n * 0xFFFF_FFFF_FFFF_FFFFnat,
                    n > 0,
            ;
        }
        let average = (total_time / (n as u128)) as u64;
        let by_difficulty = success_rates_by_field(rs, false);
        let by_language = success_rates_by_field(rs, true);
        let errors = most_common_errors(rs);
        let trends = performance_trends(rs);
        proof {
            let sel = choose|sel: Seq<usize>|
                {
                    &&& is_top_selection(error_counts(rs@), sel, 10)
                    &&& errors@.len() == sel.len()
                    &&& forall|t: int|
                        0 <= t < sel.len() ==> {
                            &&& (#[trigger] errors@[t]).0@ == error_kinds(rs@)[sel[t] as int]
                            &&& errors@[t].1 == error_counts(rs@)[sel[t] as int]
                        }
                };
            assert forall|t: int| 0 <= t < errors@.len() implies (#[trigger] errors@[t]).1 <= rs@.len() by {
                let p = sel[t] as int;
                assert(0 <= p < error_counts(rs@).len());
                lemma_flat_count_bound(rs@, error_kinds(rs@)[p]);
            }
        }
        let recommendations = generate_recommendations(rs, successes, &trends, &errors);
        PerformanceAnalysis {
            total_attempts: n,
            successful_attempts: successes,
            average_solve_time_ms: average,
            total_complexity_score: total_complexity,
            success_rate_by_difficulty: by_difficulty,
            success_rate_by_language: by_language,
            most_common_errors: errors,
            performance_trends: trends,
            recommendations,
        }
    }
}

/// An analysis counts every recorded attempt, never more successes than
/// attempts (overall and for each difficulty and language), and lists at
/// most ten error kinds, the more frequent first.
pub proof fn lemma_analysis_bounds(a: PerformanceAnalysis, rs: Seq<PerformanceRecord>)
    requires
        analysis_matches(a, rs),
    ensures
        a.total_attempts == rs.len(),
        a.successful_attempts <= a.total_attempts,
        forall|j: int|
            0 <= j < a.success_rate_by_difficulty@.len()
                ==> #[trigger] a.success_rate_by_difficulty@[j].successes
                <= a.success_rate_by_difficulty@[j].attempts,
        forall|j: int|
            0 <= j < a.success_rate_by_language@.len()
                ==> #[trigger] a.success_rate_by_language@[j].successes
                <= a.success_rate_by_language@[j].attempts,
        a.most_common_errors@.len() <= 10,
        forall|t: int, u: int|
            0 <= t < u < a.most_common_errors@.len() ==> #[trigger] a.most_common_errors@[t].1
                >= #[trigger] a.most_common_errors@[u].1,
{
    if rs.len() > 0 {
        lemma_success_count_bound(rs);
        assert forall|j: int| 0 <= j < a.success_rate_by_difficulty@.len() implies #[trigger] a.success_rate_by_difficulty@[j].successes
            <= a.success_rate_by_difficulty@[j].attempts by {
            let values = distinct_first(field_texts(rs, false));
            lemma_field_successes_bound(rs, false, values[j]);
        }
        assert forall|j: int| 0 <= j < a.success_rate_by_language@.len() implies #[trigger] a.success_rate_by_language@[j].successes
            <= a.success_rate_by_language@[j].attempts by {
            let values = distinct_first(field_texts(rs, true));
            lemma_field_successes_bound(rs, true, values[j]);
        }
        let errors = a.most_common_errors@;
        let sel = choose|sel: Seq<usize>|
            {
                &&& is_top_selection(error_counts(rs), sel, 10)
                &&& errors.len() == sel.len()
                &&& forall|t: int|
                    0 <= t < sel.len() ==> {
                        &&& (#[trigger] errors[t]).0@ == error_kinds(rs)[sel[t] as int]
                        &&& errors[t].1 == error_counts(rs)[sel[t] as int]
                    }
            };
        assert forall|t: int, u: int| 0 <= t < u < errors.len() implies #[trigger] errors[t].1
            >= #[trigger] errors[u].1 by {
            assert(crate::tally::ranks_before(error_counts(rs), sel[t] as int, sel[u] as int));
        }
    }
}

/// The success metric totals the successes.
proof fn lemma_success_metric(rs: Seq<PerformanceRecord>)
    ensures
        metric_sum(rs, 0) == success_count(rs),
    decreases rs.len(),
{
    if rs.len() > 0 {
        lemma_success_metric(rs.drop_last());
    }
}

/// The trends of an analysis of at least five attempts: the success-rate,
/// solve-time and complexity trends, in that order, each compare the total
/// of their metric over the older `n / 2` attempts with that over the newer
/// `n / 2` (for the success rate, the number of successes). Every trend whose newer total falls below its
/// older one by at least 5 percent is "declining", one whose newer total
/// rises above by at least 5 percent is "improving" (both with confidence
/// 0.8), and one that moves less, or whose older total is zero, is "stable"
/// (confidence 0.7).
pub proof fn lemma_trend_directions(a: PerformanceAnalysis, rs: Seq<PerformanceRecord>)
    requires
        analysis_matches(a, rs),
        rs.len() >= 5,
    ensures
        a.performance_trends@.len() == 3,
        a.performance_trends@[0].first_half_total == success_count(rs.take((rs.len() / 2) as int)),
        a.performance_trends@[0].second_half_total == success_count(
            rs.subrange(rs.len() - rs.len() / 2, rs.len() as int),
        ),
        a.performance_trends@[0].metric@ == "success_rate"@,
        a.performance_trends@[1].metric@ == "solve_time_ms"@,
        a.performance_trends@[2].metric@ == "complexity_score"@,
        forall|k: int|
            1 <= k < 3 ==> {
                let t = #[trigger] a.performance_trends@[k];
                &&& t.first_half_total == metric_sum(rs.take((rs.len() / 2) as int), k as u8)
                &&& t.second_half_total == metric_sum(
                    rs.subrange(rs.len() - rs.len() / 2, rs.len() as int),
                    k as u8,
                )
            },
        forall|k: int|
            0 <= k < 3 ==> {
                let t = #[trigger] a.performance_trends@[k];
                let first = t.first_half_total as int;
                let second = t.second_half_total as int;
                &&& (first > 0 && second < first && 20 * (first - second) >= first)
                    ==> t.direction@ == "declining"@ && t.confidence_tenths == 8
                &&& (first > 0 && second > first && 20 * (second - first) >= first)
                    ==> t.direction@ == "improving"@ && t.confidence_tenths == 8
                &&& (first == 0 || (20 * (second - first) < first && 20 * (first - second)
                    < first)) ==> t.direction@ == "stable"@ && t.confidence_tenths == 7
            },
{
    let n = rs.len();
    let h = n / 2;
    lemma_success_metric(rs.take(h as int));
    lemma_success_metric(rs.subrange(n - h, n as int));
    let ts = a.performance_trends@;
    assert(trend_matches(ts[0], rs, 0));
    assert(trend_matches(ts[1], rs, 1));
    assert(trend_matches(ts[2], rs, 2));
}

/// Recording an attempt adds one attempt to the analysis of the history,
/// and one success exactly when the attempt succeeded.
pub proof fn lemma_record_then_analyse(
    rs: Seq<PerformanceRecord>,
    rec: PerformanceRecord,
    before: PerformanceAnalysis,
    after: PerformanceAnalysis,
)
    requires
        analysis_matches(before, rs),
        analysis_matches(after, rs.push(rec)),
    ensures
        after.total_attempts == before.total_attempts + 1,
        after.successful_attempts == before.successful_attempts + if rec.success {
            1int
        } else {
            0int
        },
{
    assert(rs.push(rec).drop_last() =~= rs);
}

// ---------------------------------------------------------------------
// Independence of the recording order
// ---------------------------------------------------------------------

/// The total of a per-record count over records.
pub open spec fn record_sum(rs: Seq<PerformanceRecord>, f: spec_fn(PerformanceRecord) -> nat) -> nat
    decreases rs.len(),
{
    if rs.len() == 0 {
        0
    } else {
        record_sum(rs.drop_last(), f) + f(rs.last())
    }
}

proof fn lemma_record_sum_remove(rs: Seq<PerformanceRecord>, f: spec_fn(PerformanceRecord) -> nat, i: int)
    requires
        0 <= i < rs.len(),
    ensures
        record_sum(rs, f) == record_sum(rs.remove(i), f) + f(rs[i]),
    decreases rs.len(),
{
    if i == rs.len() - 1 {
        assert(rs.remove(i) =~= rs.drop_last());
    } else {
        lemma_record_sum_remove(rs.drop_last(), f, i);
        assert(rs.remove(i).drop_last() =~= rs.drop_last().remove(i));
        assert(rs.remove(i).last() == rs.last());
    }
}

proof fn lemma_record_sum_reordered(
    a: Seq<PerformanceRecord>,
    b: Seq<PerformanceRecord>,
    f: spec_fn(PerformanceRecord) -> nat,
)
    requires
        a.to_multiset() == b.to_multiset(),
    ensures
        record_sum(a, f) == record_sum(b, f),
    decreases a.len(),
{
    broadcast use vstd::seq_lib::group_to_multiset_ensures;
    broadcast use vstd::multiset::group_multiset_axioms;

    vstd::seq_lib::to_multiset_len(a);
    vstd::seq_lib::to_multiset_len(b);
    if a.len() == 0 {
        assert(b.len() == 0);
    } else {
        let x = a.last();
        assert(a.contains(x)) by {
            assert(a[a.len() - 1] == x);
        }
        assert(b.to_multiset().count(x) > 0);
        assert(b.contains(x));
        let i = choose|i: int| 0 <= i < b.len() && b[i] == x;
        lemma_record_sum_remove(b, f, i);
        assert(a.drop_last().push(x) =~= a);
        assert(a.drop_last().to_multiset() =~= b.remove(i).to_multiset()) by {
            assert(a.to_multiset() =~= a.drop_last().to_multiset().insert(x));
            assert(b.remove(i).to_multiset() == b.to_multiset().remove(x));
        }
        lemma_record_sum_reordered(a.drop_last(), b.remove(i), f);
    }
}

/// A record with its recording time left out.
pub open spec fn without_time(r: PerformanceRecord) -> PerformanceRecord {
    PerformanceRecord { timestamp: 0, ..r }
}

/// The records of a history with their recording times left out.
pub open spec fn untimed(rs: Seq<PerformanceRecord>) -> Seq<PerformanceRecord> {
    rs.map_values(|r: PerformanceRecord| without_time(r))
}

/// Two histories hold the same attempts, whatever the order and the times
/// in which they were recorded.
pub open spec fn same_attempts(rs1: Seq<PerformanceRecord>, rs2: Seq<PerformanceRecord>) -> bool {
    untimed(rs1).to_multiset() == untimed(rs2).to_multiset()
}

proof fn lemma_record_sum_untimed(rs: Seq<PerformanceRecord>, f: spec_fn(PerformanceRecord) -> nat)
    requires
        forall|r: PerformanceRecord| #[trigger] f(without_time(r)) == f(r),
    ensures
        record_sum(untimed(rs), f) == record_sum(rs, f),
    decreases rs.len(),
{
    if rs.len() > 0 {
        lemma_record_sum_untimed(rs.drop_last(), f);
        assert(untimed(rs).drop_last() =~= untimed(rs.drop_last()));
        assert(untimed(rs).last() == without_time(rs.last()));
    }
}

proof fn lemma_sum_same_attempts(
    rs1: Seq<PerformanceRecord>,
    rs2: Seq<PerformanceRecord>,
    f: spec_fn(PerformanceRecord) -> nat,
)
    requires
        same_attempts(rs1, rs2),
        forall|r: PerformanceRecord| #[trigger] f(without_time(r)) == f(r),
    ensures
        record_sum(rs1, f) == record_sum(rs2, f),
{
    lemma_record_sum_reordered(untimed(rs1), untimed(rs2), f);
    lemma_record_sum_untimed(rs1, f);
    lemma_record_sum_untimed(rs2, f);
}

/// The field of a record: its language, or its difficulty name.
pub open spec fn field_of(r: PerformanceRecord, by_language: bool) -> Seq<char> {
    if by_language {
        r.language@
    } else {
        r.difficulty@
    }
}

proof fn lemma_metric_as_sum(rs: Seq<PerformanceRecord>, metric: u8)
    ensures
        metric_sum(rs, metric) == record_sum(rs, |r: PerformanceRecord| metric_value(r, metric)),
    decreases rs.len(),
{
    if rs.len() > 0 {
        lemma_metric_as_sum(rs.drop_last(), metric);
    }
}

proof fn lemma_successes_as_sum(rs: Seq<PerformanceRecord>)
    ensures
        success_count(rs) == record_sum(rs, |r: PerformanceRecord| metric_value(r, 0)),
    decreases rs.len(),
{
    if rs.len() > 0 {
        lemma_successes_as_sum(rs.drop_last());
    }
}

proof fn lemma_field_counts_as_sums(rs: Seq<PerformanceRecord>, by_language: bool, v: Seq<char>)
    ensures
        count_in(field_texts(rs, by_language), v) == record_sum(
            rs,
            |r: PerformanceRecord|
                if field_of(r, by_language) == v {
                    1nat
                } else {
                    0nat
                },
        ),
        field_successes(rs, by_language, v) == record_sum(
            rs,
            |r: PerformanceRecord|
                if r.success && field_of(r, by_language) == v {
                    1nat
                } else {
                    0nat
                },
        ),
    decreases rs.len(),
{
    if rs.len() > 0 {
        lemma_field_counts_as_sums(rs.drop_last(), by_language, v);
        assert(field_texts(rs, by_language).drop_last() =~= field_texts(rs.drop_last(), by_language));
    }
}

proof fn lemma_error_count_as_sum(rs: Seq<PerformanceRecord>, e: Seq<char>)
    ensures
        count_in(flat_errors(rs), e) == record_sum(
            rs,
            |r: PerformanceRecord| count_in(texts(r.error_types@), e),
        ),
    decreases rs.len(),
{
    if rs.len() > 0 {
        lemma_error_count_as_sum(rs.drop_last(), e);
        lemma_count_concat(flat_errors(rs.drop_last()), texts(rs.last().error_types@), e);
    }
}

proof fn lemma_count_present(xs: Seq<Seq<char>>, x: Seq<char>)
    requires
        xs.contains(x),
    ensures
        count_in(xs, x) > 0,
    decreases xs.len(),
{
    if xs.last() != x {
        let i = choose|i: int| 0 <= i < xs.len() && xs[i] == x;
        assert(xs.drop_last()[i] == x);
        lemma_count_present(xs.drop_last(), x);
    }
}

/// `rates` lists the value of `rate` with the same attempts and successes.
pub open spec fn rate_listed(rates: Seq<FieldSuccessRate>, rate: FieldSuccessRate) -> bool {
    exists|k: int|
        0 <= k < rates.len() && #[trigger] rates[k].value@ == rate.value@ && rates[k].attempts
            == rate.attempts && rates[k].successes == rate.successes
}

proof fn lemma_rates_reordered(
    rs1: Seq<PerformanceRecord>,
    rs2: Seq<PerformanceRecord>,
    r1: Seq<FieldSuccessRate>,
    r2: Seq<FieldSuccessRate>,
    by_language: bool,
)
    requires
        field_rates_match(r1, rs1, by_language),
        field_rates_match(r2, rs2, by_language),
        forall|v: Seq<char>|
            #[trigger] count_in(field_texts(rs1, by_language), v) == count_in(
                field_texts(rs2, by_language),
                v,
            ) && field_successes(rs1, by_language, v) == field_successes(rs2, by_language, v),
    ensures
        forall|j: int| 0 <= j < r1.len() ==> rate_listed(r2, #[trigger] r1[j]),
{
    let t1 = field_texts(rs1, by_language);
    let t2 = field_texts(rs2, by_language);
    let d1 = distinct_first(t1);
    let d2 = distinct_first(t2);
    lemma_distinct_first(t1);
    lemma_distinct_first(t2);
    assert forall|j: int| 0 <= j < r1.len() implies rate_listed(r2, #[trigger] r1[j]) by {
        let v = d1[j];
        assert(d1.contains(v));
        assert(t1.contains(v));
        lemma_count_present(t1, v);
        assert(count_in(t2, v) > 0);
        if !t2.contains(v) {
            lemma_count_absent(t2, v);
        }
        assert(d2.contains(v));
        let k = choose|k: int| 0 <= k < d2.len() && d2[k] == v;
        assert(r1[j].value@ == v && r1[j].attempts == count_in(t1, v) && r1[j].successes
            == field_successes(rs1, by_language, v));
        assert(r2[k].value@ == v && r2[k].attempts == count_in(t2, v) && r2[k].successes
            == field_successes(rs2, by_language, v));
        assert(count_in(field_texts(rs1, by_language), v) == count_in(field_texts(rs2, by_language), v));
        assert(field_successes(rs1, by_language, v) == field_successes(rs2, by_language, v));
        assert(0 <= k < r2.len() && r2[k].value@ == r1[j].value@ && r2[k].attempts == r1[j].attempts
            && r2[k].successes == r1[j].successes);
    }
}

/// The analysis does not depend on the order or the times in which
/// attempts were recorded: two histories holding the same attempts give the same number
/// of attempts and of successes, the same average solve time and total
/// complexity, the same attempts and successes for every difficulty and
/// language (each listed value of one analysis is listed by the other with
/// the same counts), and the same count for every error kind, so that each
/// most common error of one analysis occurs as often in the other history
/// (the records are those a tracker keeps, each listing its error kinds
/// once).
pub proof fn lemma_analysis_order_independent(
    rs1: Seq<PerformanceRecord>,
    rs2: Seq<PerformanceRecord>,
    a1: PerformanceAnalysis,
    a2: PerformanceAnalysis,
)
    requires
        same_attempts(rs1, rs2),
        records_wf(rs1),
        analysis_matches(a1, rs1),
        analysis_matches(a2, rs2),
    ensures
        a1.total_attempts == a2.total_attempts,
        a1.successful_attempts == a2.successful_attempts,
        a1.average_solve_time_ms == a2.average_solve_time_ms,
        a1.total_complexity_score == a2.total_complexity_score,
        forall|v: Seq<char>, by_language: bool|
            #[trigger] count_in(field_texts(rs1, by_language), v) == count_in(
                field_texts(rs2, by_language),
                v,
            ) && field_successes(rs1, by_language, v) == field_successes(rs2, by_language, v),
        forall|j: int|
            0 <= j < a1.success_rate_by_difficulty@.len() ==> rate_listed(
                a2.success_rate_by_difficulty@,
                #[trigger] a1.success_rate_by_difficulty@[j],
            ),
        forall|j: int|
            0 <= j < a1.success_rate_by_language@.len() ==> rate_listed(
                a2.success_rate_by_language@,
                #[trigger] a1.success_rate_by_language@[j],
            ),
        forall|e: Seq<char>| #[trigger] count_in(flat_errors(rs1), e) == count_in(flat_errors(rs2), e),
        forall|t: int|
            0 <= t < a1.most_common_errors@.len() ==> (#[trigger] a1.most_common_errors@[t]).1
                == count_in(flat_errors(rs2), a1.most_common_errors@[t].0@),
{
    broadcast use vstd::seq_lib::group_to_multiset_ensures;

    assert(rs1.len() == rs2.len()) by {
        vstd::seq_lib::to_multiset_len(untimed(rs1));
        vstd::seq_lib::to_multiset_len(untimed(rs2));
    }
    lemma_successes_as_sum(rs1);
    lemma_successes_as_sum(rs2);
    lemma_sum_same_attempts(rs1, rs2, |r: PerformanceRecord| metric_value(r, 0));
    lemma_metric_as_sum(rs1, 1);
    lemma_metric_as_sum(rs2, 1);
    lemma_sum_same_attempts(rs1, rs2, |r: PerformanceRecord| metric_value(r, 1));
    lemma_metric_as_sum(rs1, 2);
    lemma_metric_as_sum(rs2, 2);
    lemma_sum_same_attempts(rs1, rs2, |r: PerformanceRecord| metric_value(r, 2));
    assert forall|v: Seq<char>, by_language: bool|
        #[trigger] count_in(field_texts(rs1, by_language), v) == count_in(
            field_texts(rs2, by_language),
            v,
        ) && field_successes(rs1, by_language, v) == field_successes(rs2, by_language, v) by {
        lemma_field_counts_as_sums(rs1, by_language, v);
        lemma_field_counts_as_sums(rs2, by_language, v);
        lemma_sum_same_attempts(
            rs1,
            rs2,
            |r: PerformanceRecord|
                if field_of(r, by_language) == v {
                    1nat
                } else {
                    0nat
                },
        );
        lemma_sum_same_attempts(
            rs1,
            rs2,
            |r: PerformanceRecord|
                if r.success && field_of(r, by_language) == v {
                    1nat
                } else {
                    0nat
                },
        );
    }
    assert forall|e: Seq<char>| #[trigger] count_in(flat_errors(rs1), e) == count_in(
        flat_errors(rs2),
        e,
    ) by {
        lemma_error_count_as_sum(rs1, e);
        lemma_error_count_as_sum(rs2, e);
        lemma_sum_same_attempts(rs1, rs2, |r: PerformanceRecord| count_in(texts(r.error_types@), e));
    }
    if rs1.len() > 0 {
        assert forall|v: Seq<char>|
            #[trigger] count_in(field_texts(rs1, false), v) == count_in(field_texts(rs2, false), v)
                && field_successes(rs1, false, v) == field_successes(rs2, false, v) by {
            assert(count_in(field_texts(rs1, false), v) == count_in(field_texts(rs2, false), v));
        }
        lemma_rates_reordered(rs1, rs2, a1.success_rate_by_difficulty@, a2.success_rate_by_difficulty@, false);
        assert forall|v: Seq<char>|
            #[trigger] count_in(field_texts(rs1, true), v) == count_in(field_texts(rs2, true), v)
                && field_successes(rs1, true, v) == field_successes(rs2, true, v) by {
            assert(count_in(field_texts(rs1, true), v) == count_in(field_texts(rs2, true), v));
        }
        lemma_rates_reordered(rs1, rs2, a1.success_rate_by_language@, a2.success_rate_by_language@, true);
        let errors = a1.most_common_errors@;
        let sel = choose|sel: Seq<usize>|
            {
                &&& is_top_selection(error_counts(rs1), sel, 10)
                &&& errors.len() == sel.len()
                &&& forall|t: int|
                    0 <= t < sel.len() ==> {
                        &&& (#[trigger] errors[t]).0@ == error_kinds(rs1)[sel[t] as int]
                        &&& errors[t].1 == error_counts(rs1)[sel[t] as int]
                    }
            };
        assert forall|t: int| 0 <= t < errors.len() implies (#[trigger] errors[t]).1 == count_in(
            flat_errors(rs2),
            errors[t].0@,
        ) by {
            let p = sel[t] as int;
            let e = error_kinds(rs1)[p];
            lemma_flat_count_bound(rs1, e);
            assert(count_in(flat_errors(rs1), e) == count_in(flat_errors(rs2), e));
        }
    }
}

} // verus!

//! The decisions of the generation loop: how a batch of mined challenges is
//! split into groups solved together, how outcomes are counted, how many
//! tokens an attempt used, and what happens after each cycle.

use vstd::prelude::*;
use crate::challenge_generation::swe_forge_adapter::SweForgeConfig;
use crate::challenge_solver::{SolveResult, TestResult};
use crate::text::byte_len;

verus! {

/// Settings of the generation loop.
#[derive(Debug)]
pub struct ChallengeGenerationConfig {
    pub swe_forge: SweForgeConfig,
    pub generation_interval_minutes: u64,
    pub max_concurrent_solves: usize,
    pub performance_analysis_threshold: usize,
    pub auto_improvement_enabled: bool,
}

impl ChallengeGenerationConfig {
    /// The default loop settings around the given SWE-Forge settings: a new
    /// batch every hour, three solves at a time, an analysis once a batch
    /// holds ten attempts, automatic improvement on.
    pub fn with_swe_forge(swe_forge: SweForgeConfig) -> (c: Self)
        ensures
            c.swe_forge == swe_forge,
            c.generation_interval_minutes == 60,
            c.max_concurrent_solves == 3,
            c.performance_analysis_threshold == 10,
            c.auto_improvement_enabled,
    {
        ChallengeGenerationConfig {
            swe_forge,
            generation_interval_minutes: 60,
            max_concurrent_solves: 3,
            performance_analysis_threshold: 10,
            auto_improvement_enabled: true,
        }
    }
}

/// The `k`-th group of a batch of `total` challenges split into groups of
/// `size`: its first position and the position after its last.
pub open spec fn chunk_bounds(total: nat, size: nat, k: nat) -> (nat, nat) {
    let start = k * size;
    let end = if start + size <= total {
        start + size
    } else {
        total
    };
    (start, end)
}

/// The number of groups: `total / size`, rounded up.
pub open spec fn chunk_count(total: nat, size: nat) -> nat {
    ((total + size - 1) as nat) / size
}

proof fn lemma_chunk_count_bounds(total: nat, size: nat)
    requires
        size > 0,
    ensures
        chunk_count(total, size) * size >= total,
        chunk_count(total, size) > 0 ==> ((chunk_count(total, size) - 1) * size) < total,
{
    let n: int = total + size - 1;
    let c: int = chunk_count(total, size) as int;
    vstd::arithmetic::div_mod::lemma_fundamental_div_mod(n, size as int);
    vstd::arithmetic::div_mod::lemma_mod_pos_bound(n, size as int);
    assert(c == n / (size as int));
    assert(n == size * c + n % (size as int));
    assert(c * size == size * c) by (nonlinear_arith);
    if c > 0 {
        assert((c - 1) * size == c * size - size) by (nonlinear_arith);
    }
}

/// The groups of a batch follow one another without gap or overlap: the
/// first starts at 0; each holds between one and `size` challenges; each
/// ends where the next starts; the last ends at `total`. An empty batch
/// has no group.
pub proof fn lemma_chunks_partition(total: nat, size: nat, k: nat)
    requires
        size > 0,
    ensures
        chunk_bounds(total, size, 0).0 == 0,
        (chunk_count(total, size) == 0) <==> (total == 0),
        k < chunk_count(total, size) ==> chunk_bounds(total, size, k).0 < chunk_bounds(
            total,
            size,
            k,
        ).1 <= total && chunk_bounds(total, size, k).1 <= chunk_bounds(total, size, k).0 + size,
        k + 1 < chunk_count(total, size) ==> chunk_bounds(total, size, k).1 == chunk_bounds(
            total,
            size,
            k + 1,
        ).0,
        k + 1 == chunk_count(total, size) ==> chunk_bounds(total, size, k).1 == total,
{
    let c = chunk_count(total, size);
    lemma_chunk_count_bounds(total, size);
    assert(0 * size == 0) by (nonlinear_arith);
    if k < c {
        vstd::arithmetic::mul::lemma_mul_inequality(k as int, c - 1, size as int);
        assert((k + 1) * size == k * size + size) by (nonlinear_arith);
    }
    if k + 1 < c {
        vstd::arithmetic::mul::lemma_mul_inequality((k + 1) as int, c - 1, size as int);
    }
    if total == 0 && c > 0 {
        assert(((c - 1) * size) >= 0) by (nonlinear_arith)
            requires
                c >= 1,
        ;
    }
    if total > 0 && c == 0 {
        assert(c * size == 0) by (nonlinear_arith)
            requires
                c == 0,
        ;
    }
}

/// Splits a batch of `total` challenges, in order, into groups of `size`
/// (the last may be smaller), as `slice::chunks` does; each group is given
/// by its first position and the position after its last.
pub fn batch_chunks(total: usize, size: usize) -> (chunks: Vec<(usize, usize)>)
    requires
        size > 0,
    ensures
        chunks@.len() == chunk_count(total as nat, size as nat),
        forall|k: int|
            0 <= k < chunks@.len() ==> (#[trigger] chunks@[k]).0 == chunk_bounds(
                total as nat,
                size as nat,
                k as nat,
            ).0 && chunks@[k].1 == chunk_bounds(total as nat, size as nat, k as nat).1,
{
    let mut chunks: Vec<(usize, usize)> = Vec::new();
    let mut start: usize = 0;
    assert(chunks@.len() * size == 0) by (nonlinear_arith)
        requires
            chunks@.len() == 0,
    ;
    while start < total
        invariant
            size > 0,
            start <= total,
            start < total ==> start == chunks@.len() * size,
            start == total ==> chunks@.len() * size >= total,
            chunks@.len() * size < total + size,
            forall|k: int|
                0 <= k < chunks@.len() ==> (#[trigger] chunks@[k]).0 == chunk_bounds(
                    total as nat,
                    size as nat,
                    k as nat,
                ).0 && chunks@[k].1 == chunk_bounds(total as nat, size as nat, k as nat).1,
        decreases total - start,
    {
        let end = if size <= total - start {
            start + size
        } else {
            total
        };
        let ghost k = chunks@.len();
        chunks.push((start, end));
        assert(chunks@.len() * size == start + size) by (nonlinear_arith)
            requires
                start == k * size,
                chunks@.len() == k + 1,
        ;
        start = end;
    }
    proof {
        let n = chunks@.len();
        let t = total as nat;
        let s = size as nat;
        assert(((t + s - 1) as nat) / s == n) by (nonlinear_arith)
            requires
                s > 0,
                n * s >= t,
                n * s < t + s,
        ;
    }
    chunks
}

/// How many attempts succeeded.
pub open spec fn solved_count(outcomes: Seq<Option<bool>>) -> nat
    decreases outcomes.len(),
{
    if outcomes.len() == 0 {
        0
    } else {
        solved_count(outcomes.drop_last()) + if outcomes.last() == Some(true) {
            1nat
        } else {
            0nat
        }
    }
}

/// Counts the outcomes of a batch: `Some(success)` for an attempt that
/// ran, `None` for one whose solver failed. Returns the number solved and
/// the number failed; every outcome is one or the other.
pub fn tally_outcomes(outcomes: &Vec<Option<bool>>) -> (counts: (usize, usize))
    ensures
        counts.0 == solved_count(outcomes@),
        counts.0 + counts.1 == outcomes@.len(),
{
    let mut solved: usize = 0;
    let mut failed: usize = 0;
    let mut i: usize = 0;
    while i < outcomes.len()
        invariant
            i <= outcomes@.len(),
            solved == solved_count(outcomes@.take(i as int)),
            solved + failed == i,
        decreases outcomes@.len() - i,
    {
        assert(outcomes@.take(i + 1).drop_last() =~= outcomes@.take(i as int));
        match outcomes[i] {
            Some(true) => {
                solved = solved + 1;
            },
            _ => {
                failed = failed + 1;
            },
        }
        i = i + 1;
    }
    assert(outcomes@.take(i as int) =~= outcomes@);
    (solved, failed)
}

/// A token estimate for a text: a quarter of its length in bytes, as a
/// `u32` (wrapping, as `as u32` does).
pub open spec fn text_tokens(s: Seq<char>) -> u32 {
    ((byte_len(s) / 4) as usize) as u32
}

/// The token estimates of the test outputs, summed.
pub open spec fn output_tokens(tests: Seq<TestResult>) -> nat
    decreases tests.len(),
{
    if tests.len() == 0 {
        0
    } else {
        output_tokens(tests.drop_last()) + text_tokens(tests.last().output@) as nat
    }
}

/// The token estimate of an attempt: its generated code and its test
/// outputs, a token for every four bytes.
pub open spec fn token_estimate(r: SolveResult) -> nat {
    (match r.generated_code {
        Some(code) => text_tokens(code@) as nat,
        None => 0,
    }) + output_tokens(r.test_results@)
}

proof fn lemma_output_tokens_prefix(tests: Seq<TestResult>, i: int)
    requires
        0 <= i <= tests.len(),
    ensures
        output_tokens(tests.take(i)) <= output_tokens(tests),
    decreases tests.len() - i,
{
    if i < tests.len() {
        lemma_output_tokens_prefix(tests, i + 1);
        assert(tests.take(i + 1).drop_last() =~= tests.take(i));
    } else {
        assert(tests.take(i) =~= tests);
    }
}

/// Estimates the tokens an attempt used from the length of its generated
/// code and test outputs.
pub fn estimate_token_usage(r: &SolveResult) -> (tokens: u32)
    requires
        token_estimate(*r) <= u32::MAX,
    ensures
        tokens == token_estimate(*r),
{
    let code_tokens: u32 = match &r.generated_code {
        Some(code) => (code.as_str().len() / 4) as u32,
        None => 0,
    };
    let mut total: u32 = code_tokens;
    let mut i: usize = 0;
    while i < r.test_results.len()
        invariant
            i <= r.test_results@.len(),
            token_estimate(*r) <= u32::MAX,
            total == code_tokens + output_tokens(r.test_results@.take(i as int)),
            code_tokens == token_estimate(*r) - output_tokens(r.test_results@),
        decreases r.test_results@.len() - i,
    {
        assert(r.test_results@.take(i + 1).drop_last() =~= r.test_results@.take(i as int));
        proof {
            lemma_output_tokens_prefix(r.test_results@, i + 1);
        }
        let t = (r.test_results[i].output.as_str().len() / 4) as u32;
        total = total + t;
        i = i + 1;
    }
    assert(r.test_results@.take(i as int) =~= r.test_results@);
    total
}

/// The token estimate of an attempt, or `None` when it does not fit in a
/// `u32`.
pub fn checked_token_usage(r: &SolveResult) -> (tokens: Option<u32>)
    ensures
        token_estimate(*r) <= u32::MAX ==> tokens == Some(token_estimate(*r) as u32),
        token_estimate(*r) > u32::MAX ==> tokens is None,
{
    let code_tokens: u64 = match &r.generated_code {
        Some(code) => ((code.as_str().len() / 4) as u32) as u64,
        None => 0,
    };
    let mut total: u64 = code_tokens;
    let mut i: usize = 0;
    while i < r.test_results.len()
        invariant
            i <= r.test_results@.len(),
            total <= 0xffff_ffff,
            total == code_tokens + output_tokens(r.test_results@.take(i as int)),
            code_tokens == token_estimate(*r) - output_tokens(r.test_results@),
        decreases r.test_results@.len() - i,
    {
        assert(r.test_results@.take(i + 1).drop_last() =~= r.test_results@.take(i as int));
        proof {
            lemma_output_tokens_prefix(r.test_results@, i + 1);
        }
        let t = ((r.test_results[i].output.as_str().len() / 4) as u32) as u64;
        total = total + t;
        i = i + 1;
        if total > 0xffff_ffff {
            proof {
                lemma_output_tokens_prefix(r.test_results@, i as int);
            }
            return None;
        }
    }
    assert(r.test_results@.take(i as int) =~= r.test_results@);
    Some(estimate_token_usage(r))
}

/// What the generation loop does after a cycle: record the attempts of a
/// batch that ran, analyse performance once a batch holds at least the
/// threshold of attempts, then sleep for the configured interval.
#[derive(Debug)]
pub struct GenerationStep {
    pub record_attempts: bool,
    pub run_analysis: bool,
    pub sleep_seconds: u64,
}

/// The loop's decision after a cycle whose batch produced `attempts`
/// attempts (`None` when the batch failed).
pub fn generation_cycle_step(config: &ChallengeGenerationConfig, attempts: Option<usize>) -> (step:
    GenerationStep)
    requires
        config.generation_interval_minutes * 60 <= u64::MAX,
    ensures
        step.record_attempts == attempts is Some,
        step.run_analysis == (attempts matches Some(n) && n >= config.performance_analysis_threshold),
        step.sleep_seconds == config.generation_interval_minutes * 60,
{
    let (record, analyse) = match attempts {
        Some(n) => (true, n >= config.performance_analysis_threshold),
        None => (false, false),
    };
    GenerationStep {
        record_attempts: record,
        run_analysis: analyse,
        sleep_seconds: config.generation_interval_minutes * 60,
    }
}

} // verus!

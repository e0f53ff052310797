//! Challenge definitions, solving bookkeeping and performance analysis for a
//! self-improving coding-challenge harness.

pub mod text;
pub mod clock;
pub mod challenge;
pub mod error;
pub mod executor;
pub mod llm;
pub mod executor_simple;
pub mod tally;
pub mod challenge_solver;
pub mod challenge_generation;
pub mod harness;
pub mod config;
pub mod continuous_improvement_loop;

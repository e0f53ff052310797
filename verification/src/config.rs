//! Settings of the container sandbox, of execution and of the improvement
//! loop, with the values the harness runs with by default.

use vstd::prelude::*;
use vstd::string::StringExecFns;
use crate::error::NinjaError;

verus! {

/// How solutions are run in containers.
#[derive(Debug, Clone)]
pub struct DockerConfig {
    pub enabled: bool,
    pub base_image: String,
    pub timeout_seconds: u64,
    pub memory_limit: String,
    pub cpu_limit: String,
}

/// Limits of one solving session.
#[derive(Debug, Clone, Copy, PartialEq, Eq, Structural)]
pub struct ExecutionConfig {
    pub max_retries: u32,
    pub timeout_seconds: u64,
    pub max_tools_per_session: u32,
}

/// Settings of the self-improvement loop.
#[derive(Debug, Clone, Copy, PartialEq, Eq, Structural)]
pub struct ImprovementConfig {
    pub enabled: bool,
    pub challenge_generation_rate: u32,
    pub analysis_frequency: u32,
    pub auto_deploy: bool,
}

impl Default for DockerConfig {
    /// Containers enabled, from `python:3.12-slim`, with five minutes,
    /// one gigabyte of memory and one CPU.
    fn default() -> (c: Self)
        ensures
            c.enabled,
            c.base_image@ == "python:3.12-slim"@,
            c.timeout_seconds == 300,
            c.memory_limit@ == "1g"@,
            c.cpu_limit@ == "1.0"@,
    {
        DockerConfig {
            enabled: true,
            base_image: String::from_str("python:3.12-slim"),
            timeout_seconds: 300,
            memory_limit: String::from_str("1g"),
            cpu_limit: String::from_str("1.0"),
        }
    }
}

impl Default for ExecutionConfig {
    /// Three retries, two minutes, fifty tool calls per session.
    fn default() -> (c: Self)
        ensures
            c == (ExecutionConfig { max_retries: 3, timeout_seconds: 120, max_tools_per_session: 50 }),
    {
        ExecutionConfig { max_retries: 3, timeout_seconds: 120, max_tools_per_session: 50 }
    }
}

impl Default for ImprovementConfig {
    /// Enabled, ten challenges per batch, analysis every hundred attempts,
    /// no automatic deployment.
    fn default() -> (c: Self)
        ensures
            c == (ImprovementConfig {
                enabled: true,
                challenge_generation_rate: 10,
                analysis_frequency: 100,
                auto_deploy: false,
            }),
    {
        ImprovementConfig {
            enabled: true,
            challenge_generation_rate: 10,
            analysis_frequency: 100,
            auto_deploy: false,
        }
    }
}

/// The address of the chat-completion service used by default.
pub const DEFAULT_BASE_URL: &'static str = "https://openrouter.ai/api/v1";

/// The most tokens a completion may use by default.
pub const DEFAULT_MAX_TOKENS: u32 = 8192;

/// The API key the default settings need: the value of
/// `OPENROUTER_API_KEY`, or a configuration error when it is not set.
pub fn required_api_key(value: Option<String>) -> (r: Result<String, NinjaError>)
    ensures
        value is Some ==> r == Ok::<String, NinjaError>(value->0),
        value is None ==> (r matches Err(NinjaError::Config(m)) && m@
            == "OPENROUTER_API_KEY environment variable not set"@),
{
    match value {
        Some(k) => Ok(k),
        None => Err(
            NinjaError::Config(String::from_str("OPENROUTER_API_KEY environment variable not set")),
        ),
    }
}

} // verus!

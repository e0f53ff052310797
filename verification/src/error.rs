//! The harness's error type.
//!
//! Errors that arise in outside services (HTTP, the container engine, the
//! file system, JSON decoding) carry the text of the underlying error.

use vstd::prelude::*;
use vstd::string::StringExecFns;

verus! {

/// The main error type of the harness.
#[derive(Debug)]
pub enum NinjaError {
    Config(String),
    Llm(String),
    Docker(String),
    ChallengeParse(String),
    Execution(String),
    Validation(String),
    Io(String),
    Json(String),
    Serialization(String),
    Unknown(String),
}

impl NinjaError {
    /// The human-readable text of the error: a prefix naming its kind, then
    /// its detail.
    pub open spec fn message_spec(self) -> Seq<char> {
        match self {
            NinjaError::Config(m) => "Configuration error: "@ + m@,
            NinjaError::Llm(m) => "LLM API error: "@ + m@,
            NinjaError::Docker(m) => "Docker error: "@ + m@,
            NinjaError::ChallengeParse(m) => "Challenge parsing error: "@ + m@,
            NinjaError::Execution(m) => "Execution error: "@ + m@,
            NinjaError::Validation(m) => "Validation error: "@ + m@,
            NinjaError::Io(m) => "IO error: "@ + m@,
            NinjaError::Json(m) => "JSON parsing error: "@ + m@,
            NinjaError::Serialization(m) => "Serialization error: "@ + m@,
            NinjaError::Unknown(m) => "Unknown error: "@ + m@,
        }
    }

    /// The human-readable text of the error.
    pub fn message(&self) -> (r: String)
        ensures
            r@ == self.message_spec(),
    {
        let (prefix, m) = match self {
            NinjaError::Config(m) => ("Configuration error: ", m),
            NinjaError::Llm(m) => ("LLM API error: ", m),
            NinjaError::Docker(m) => ("Docker error: ", m),
            NinjaError::ChallengeParse(m) => ("Challenge parsing error: ", m),
            NinjaError::Execution(m) => ("Execution error: ", m),
            NinjaError::Validation(m) => ("Validation error: ", m),
            NinjaError::Io(m) => ("IO error: ", m),
            NinjaError::Json(m) => ("JSON parsing error: ", m),
            NinjaError::Serialization(m) => ("Serialization error: ", m),
            NinjaError::Unknown(m) => ("Unknown error: ", m),
        };
        let mut r = String::from_str(prefix);
        r.append(m.as_str());
        r
    }

    /// An error reported by an HTTP client.
    pub fn http_client(message: String) -> (e: Self)
        ensures
            e == NinjaError::Unknown(message),
    {
        NinjaError::Unknown(message)
    }
}

} // verus!

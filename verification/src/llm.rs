//! Messages exchanged with a chat-completion service, the tools offered to
//! the model, and how a completion response is read.
//!
//! Tool arguments are carried as JSON text.

use vstd::prelude::*;
use vstd::string::StringExecFns;
use crate::error::NinjaError;
use crate::text::{concat, texts_of};

verus! {

#[derive(Debug)]
pub struct ChatMessage {
    pub role: String,
    pub content: String,
}

#[derive(Clone, Copy, Debug, PartialEq, Eq, Structural)]
pub struct TokenUsage {
    pub prompt_tokens: u32,
    pub completion_tokens: u32,
    pub total_tokens: u32,
}

/// A tool call requested by the model; `arguments` is JSON text.
#[derive(Debug)]
pub struct ToolCall {
    pub id: String,
    pub name: String,
    pub arguments: String,
}

#[derive(Debug)]
pub struct ChatResponse {
    pub content: String,
    pub usage: TokenUsage,
    pub tool_calls: Option<Vec<ToolCall>>,
}

/// One parameter of a tool: its name, JSON type and description.
#[derive(Debug)]
pub struct ToolProperty {
    pub name: String,
    pub kind: String,
    pub description: String,
}

/// The JSON-schema object describing a tool's parameters.
#[derive(Debug)]
pub struct ToolParameters {
    pub properties: Vec<ToolProperty>,
    pub required: Vec<String>,
}

#[derive(Debug)]
pub struct ToolDefinition {
    pub name: String,
    pub description: String,
    pub parameters: ToolParameters,
}

#[derive(Debug)]
pub struct FunctionCallRequest {
    pub prompt: String,
    pub functions: Vec<ToolDefinition>,
    pub required_function: Option<String>,
}

/// The first tool call of an answer; `arguments` is JSON text.
#[derive(Debug)]
pub struct FunctionCallResponse {
    pub function_name: String,
    pub arguments: String,
    pub raw_response: String,
}

/// A tool call as found in a completion: each part is `None` when missing
/// or of the wrong JSON type.
#[derive(Debug)]
pub struct RawToolCall {
    pub id: Option<String>,
    pub name: Option<String>,
    pub arguments: Option<String>,
}

/// What a completion response holds: the first choice's message content
/// and tool calls, and the token usage. `tool_calls` is `None` when the
/// message has no such key, `Some(None)` when it is not an array.
#[derive(Debug)]
pub struct ChatCompletionFields {
    pub content: Option<String>,
    pub prompt_tokens: Option<u64>,
    pub completion_tokens: Option<u64>,
    pub total_tokens: Option<u64>,
    pub tool_calls: Option<Option<Vec<RawToolCall>>>,
}

/// A tool call as plain values: id, name, arguments.
pub type CallModel = (Seq<char>, Seq<char>, Seq<char>);

pub open spec fn call_model(c: ToolCall) -> CallModel {
    (c.id@, c.name@, c.arguments@)
}

/// The calls that have an id, a name and arguments, in order.
pub open spec fn complete_calls(raw: Seq<RawToolCall>) -> Seq<CallModel>
    decreases raw.len(),
{
    if raw.len() == 0 {
        Seq::empty()
    } else {
        let rest = complete_calls(raw.drop_last());
        let c = raw.last();
        match (c.id, c.name, c.arguments) {
            (Some(i), Some(n), Some(a)) => rest.push((i@, n@, a@)),
            _ => rest,
        }
    }
}

/// The tool calls of a response: the complete ones when the message holds
/// an array of them, none otherwise.
pub open spec fn tool_calls_spec(t: Option<Option<Vec<RawToolCall>>>) -> Option<Seq<CallModel>> {
    match t {
        Some(Some(list)) => Some(complete_calls(list@)),
        _ => None,
    }
}

pub open spec fn calls_model(t: Option<Vec<ToolCall>>) -> Option<Seq<CallModel>> {
    match t {
        Some(v) => Some(v@.map_values(|c: ToolCall| call_model(c))),
        None => None,
    }
}

/// A token count as reported, 0 when missing, truncated to `u32`.
pub open spec fn token_count(t: Option<u64>) -> u32 {
    (match t {
        Some(v) => v,
        None => 0u64,
    }) as u32
}

fn token_count_exec(t: Option<u64>) -> (r: u32)
    ensures
        r == token_count(t),
{
    let v: u64 = match t {
        Some(v) => v,
        None => 0,
    };
    v as u32
}

impl ChatResponse {
    /// Reads a completion: the content (empty when missing), the token
    /// counts, and the complete tool calls.
    pub fn from_fields(fields: ChatCompletionFields) -> (r: ChatResponse)
        ensures
            r.content@ == match fields.content {
                Some(c) => c@,
                None => Seq::<char>::empty(),
            },
            r.usage.prompt_tokens == token_count(fields.prompt_tokens),
            r.usage.completion_tokens == token_count(fields.completion_tokens),
            r.usage.total_tokens == token_count(fields.total_tokens),
            calls_model(r.tool_calls) == tool_calls_spec(fields.tool_calls),
    {
        let usage = TokenUsage {
            prompt_tokens: token_count_exec(fields.prompt_tokens),
            completion_tokens: token_count_exec(fields.completion_tokens),
            total_tokens: token_count_exec(fields.total_tokens),
        };
        let content = match fields.content {
            Some(c) => c,
            None => String::new(),
        };
        let tool_calls = match fields.tool_calls {
            Some(Some(list)) => {
                let ghost raw = list@;
                let mut calls: Vec<ToolCall> = Vec::new();
                let mut rest = list;
                let mut taken: Vec<RawToolCall> = Vec::new();
                let mut i: usize = 0;
                let n = rest.len();
                assert(calls@.map_values(|c: ToolCall| call_model(c)) =~= complete_calls(
                    raw.take(0),
                ));
                while i < n
                    invariant
                        i <= n == raw.len(),
                        rest@ == raw,
                        calls@.map_values(|c: ToolCall| call_model(c)) == complete_calls(
                            raw.take(i as int),
                        ),
                    decreases n - i,
                {
                    assert(raw.take(i + 1).drop_last() =~= raw.take(i as int));
                    let c = &rest[i];
                    match (&c.id, &c.name, &c.arguments) {
                        (Some(id), Some(name), Some(args)) => {
                            let ghost before = calls@.map_values(|c: ToolCall| call_model(c));
                            calls.push(
                                ToolCall { id: id.clone(), name: name.clone(), arguments: args.clone() },
                            );
                            assert(calls@.map_values(|c: ToolCall| call_model(c)) =~= before.push(
                                (id@, name@, args@),
                            ));
                        },
                        _ => {},
                    }
                    i = i + 1;
                }
                assert(raw.take(n as int) =~= raw);
                Some(calls)
            },
            _ => None,
        };
        ChatResponse { content, usage, tool_calls }
    }
}

/// The function call of an answer: its first tool call, or an error when
/// it made none.
pub fn function_call_outcome(response: ChatResponse) -> (r: Result<FunctionCallResponse, NinjaError>)
    ensures
        match calls_model(response.tool_calls) {
            Some(calls) if calls.len() > 0 => r matches Ok(f) && f.function_name@ == calls[0].1
                && f.arguments@ == calls[0].2 && f.raw_response == response.content,
            _ => r matches Err(NinjaError::Unknown(m)) && m@ == "No function call found in response"@,
        },
{
    let ChatResponse { content, usage, tool_calls } = response;
    match tool_calls {
        Some(calls) => {
            if calls.len() > 0 {
                let first = &calls[0];
                return Ok(
                    FunctionCallResponse {
                        function_name: first.name.clone(),
                        arguments: first.arguments.clone(),
                        raw_response: content,
                    },
                );
            }
        },
        None => {},
    }
    Err(NinjaError::http_client(String::from_str("No function call found in response")))
}

/// A message from the user.
pub fn user_message(content: String) -> (m: ChatMessage)
    ensures
        m.role@ == "user"@,
        m.content == content,
{
    ChatMessage { role: String::from_str("user"), content }
}

/// The address of the chat-completion endpoint under `base_url`.
pub fn completions_url(base_url: &str) -> (u: String)
    ensures
        u@ == base_url@ + "/chat/completions"@,
{
    concat(base_url, "/chat/completions")
}

/// The authorization header value for an API key.
pub fn bearer_token(api_key: &str) -> (h: String)
    ensures
        h@ == "Bearer "@ + api_key@,
{
    concat("Bearer ", api_key)
}

/// The error for a request the service refused, carrying its answer.
pub fn api_error(body: &str) -> (e: NinjaError)
    ensures
        e matches NinjaError::Unknown(m) && m@ == "OpenRouter API error: "@ + body@,
{
    NinjaError::http_client(concat("OpenRouter API error: ", body))
}

/// A tool definition as plain values: name, description, properties
/// (name, JSON type, description) and required parameters.
pub type ToolModel = (Seq<char>, Seq<char>, Seq<(Seq<char>, Seq<char>, Seq<char>)>, Seq<Seq<char>>);

pub open spec fn tool_model(t: ToolDefinition) -> ToolModel {
    (
        t.name@,
        t.description@,
        t.parameters.properties@.map_values(
            |p: ToolProperty| (p.name@, p.kind@, p.description@),
        ),
        texts_of(t.parameters.required@),
    )
}

/// The four tools offered to the coding agent.
pub open spec fn coding_tools_spec() -> Seq<ToolModel> {
    seq![
        (
            "read_file"@,
            "Read the contents of a file"@,
            seq![("path"@, "string"@, "Path to the file to read"@)],
            seq!["path"@],
        ),
        (
            "write_file"@,
            "Write content to a file"@,
            seq![
                ("path"@, "string"@, "Path to the file to write"@),
                ("content"@, "string"@, "Content to write to the file"@),
            ],
            seq!["path"@, "content"@],
        ),
        (
            "execute_command"@,
            "Execute a shell command"@,
            seq![
                ("command"@, "string"@, "Command to execute"@),
                ("working_directory"@, "string"@, "Working directory for the command"@),
            ],
            seq!["command"@],
        ),
        (
            "list_files"@,
            "List files in a directory"@,
            seq![
                ("path"@, "string"@, "Directory path to list"@),
                ("recursive"@, "boolean"@, "Whether to list files recursively"@),
            ],
            seq!["path"@],
        ),
    ]
}

fn property(name: &str, kind: &str, description: &str) -> (p: ToolProperty)
    ensures
        p.name@ == name@,
        p.kind@ == kind@,
        p.description@ == description@,
{
    ToolProperty {
        name: String::from_str(name),
        kind: String::from_str(kind),
        description: String::from_str(description),
    }
}

fn tool(
    name: &str,
    description: &str,
    properties: Vec<ToolProperty>,
    required: Vec<String>,
) -> (t: ToolDefinition)
    ensures
        t.name@ == name@,
        t.description@ == description@,
        t.parameters.properties == properties,
        t.parameters.required == required,
{
    ToolDefinition {
        name: String::from_str(name),
        description: String::from_str(description),
        parameters: ToolParameters { properties, required },
    }
}

/// The tools offered to the coding agent: reading, writing and listing
/// files, and running shell commands.
pub fn create_coding_tools() -> (tools: Vec<ToolDefinition>)
    ensures
        tools@.map_values(|t: ToolDefinition| tool_model(t)) == coding_tools_spec(),
{
    let mut tools: Vec<ToolDefinition> = Vec::new();
    let ghost spec = coding_tools_spec();

    let mut p: Vec<ToolProperty> = Vec::new();
    p.push(property("path", "string", "Path to the file to read"));
    let mut r: Vec<String> = Vec::new();
    r.push(String::from_str("path"));
    let t = tool("read_file", "Read the contents of a file", p, r);
    assert(tool_model(t).2 =~= spec[0].2);
    assert(tool_model(t).3 =~= spec[0].3);
    tools.push(t);

    let mut p: Vec<ToolProperty> = Vec::new();
    p.push(property("path", "string", "Path to the file to write"));
    p.push(property("content", "string", "Content to write to the file"));
    let mut r: Vec<String> = Vec::new();
    r.push(String::from_str("path"));
    r.push(String::from_str("content"));
    let t = tool("write_file", "Write content to a file", p, r);
    assert(tool_model(t).2 =~= spec[1].2);
    assert(tool_model(t).3 =~= spec[1].3);
    tools.push(t);

    let mut p: Vec<ToolProperty> = Vec::new();
    p.push(property("command", "string", "Command to execute"));
    p.push(property("working_directory", "string", "Working directory for the command"));
    let mut r: Vec<String> = Vec::new();
    r.push(String::from_str("command"));
    let t = tool("execute_command", "Execute a shell command", p, r);
    assert(tool_model(t).2 =~= spec[2].2);
    assert(tool_model(t).3 =~= spec[2].3);
    tools.push(t);

    let mut p: Vec<ToolProperty> = Vec::new();
    p.push(property("path", "string", "Directory path to list"));
    p.push(property("recursive", "boolean", "Whether to list files recursively"));
    let mut r: Vec<String> = Vec::new();
    r.push(String::from_str("path"));
    let t = tool("list_files", "List files in a directory", p, r);
    assert(tool_model(t).2 =~= spec[3].2);
    assert(tool_model(t).3 =~= spec[3].3);
    tools.push(t);

    assert(tools@.map_values(|t: ToolDefinition| tool_model(t)) =~= coding_tools_spec());
    tools
}

} // verus!

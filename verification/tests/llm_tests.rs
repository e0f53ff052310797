use ninja::llm::{
    api_error, bearer_token, completions_url, create_coding_tools, function_call_outcome,
    user_message, ChatCompletionFields, ChatResponse, RawToolCall, TokenUsage,
};
use ninja::error::NinjaError;

fn raw(id: Option<&str>, name: Option<&str>, args: Option<&str>) -> RawToolCall {
    RawToolCall {
        id: id.map(|s| s.to_string()),
        name: name.map(|s| s.to_string()),
        arguments: args.map(|s| s.to_string()),
    }
}

#[test]
fn coding_tools_are_the_four_workspace_tools() {
    let tools = create_coding_tools();
    let names: Vec<&str> = tools.iter().map(|t| t.name.as_str()).collect();
    assert_eq!(names, vec!["read_file", "write_file", "execute_command", "list_files"]);
    assert_eq!(tools[1].parameters.required, vec!["path", "content"]);
    assert_eq!(tools[3].parameters.properties[1].name, "recursive");
    assert_eq!(tools[3].parameters.properties[1].kind, "boolean");
    assert_eq!(tools[2].description, "Execute a shell command");
}

#[test]
fn completion_fields_are_read() {
    let fields = ChatCompletionFields {
        content: Some("hi".to_string()),
        prompt_tokens: Some(3),
        completion_tokens: None,
        total_tokens: Some(5),
        tool_calls: Some(Some(vec![
            raw(Some("1"), Some("read_file"), Some("{\"path\":\"a\"}")),
            raw(None, Some("x"), Some("{}")),
            raw(Some("2"), Some("list_files"), Some("{}")),
        ])),
    };
    let r = ChatResponse::from_fields(fields);
    assert_eq!(r.content, "hi");
    assert_eq!(r.usage, TokenUsage { prompt_tokens: 3, completion_tokens: 0, total_tokens: 5 });
    let calls = r.tool_calls.unwrap();
    assert_eq!(calls.len(), 2);
    assert_eq!(calls[0].name, "read_file");
    assert_eq!(calls[1].id, "2");
}

#[test]
fn completion_without_tool_array_has_no_calls() {
    let fields = ChatCompletionFields {
        content: None,
        prompt_tokens: None,
        completion_tokens: None,
        total_tokens: Some(u64::from(u32::MAX) + 2),
        tool_calls: Some(None),
    };
    let r = ChatResponse::from_fields(fields);
    assert_eq!(r.content, "");
    assert_eq!(r.usage.total_tokens, 1);
    assert!(r.tool_calls.is_none());
}

#[test]
fn function_call_takes_first_tool_call() {
    let fields = ChatCompletionFields {
        content: Some("raw".to_string()),
        prompt_tokens: None,
        completion_tokens: None,
        total_tokens: None,
        tool_calls: Some(Some(vec![raw(Some("1"), Some("f"), Some("{\"a\":1}"))])),
    };
    let f = function_call_outcome(ChatResponse::from_fields(fields)).unwrap();
    assert_eq!(f.function_name, "f");
    assert_eq!(f.arguments, "{\"a\":1}");
    assert_eq!(f.raw_response, "raw");
}

#[test]
fn function_call_missing_is_an_error() {
    let r = ChatResponse {
        content: "".to_string(),
        usage: TokenUsage { prompt_tokens: 0, completion_tokens: 0, total_tokens: 0 },
        tool_calls: Some(Vec::new()),
    };
    match function_call_outcome(r) {
        Err(NinjaError::Unknown(m)) => assert_eq!(m, "No function call found in response"),
        other => panic!("unexpected {:?}", other),
    }
}

#[test]
fn request_pieces() {
    let m = user_message("hello".to_string());
    assert_eq!(m.role, "user");
    assert_eq!(m.content, "hello");
    assert_eq!(completions_url("https://x/api/v1"), "https://x/api/v1/chat/completions");
    assert_eq!(bearer_token("k"), "Bearer k");
    match api_error("quota") {
        NinjaError::Unknown(m) => assert_eq!(m, "OpenRouter API error: quota"),
        other => panic!("unexpected {:?}", other),
    }
}

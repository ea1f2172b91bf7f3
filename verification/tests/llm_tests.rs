use chris_code::events::{handle, AppEvent, LlmEvent};
use chris_code::json::JsonValue;
use chris_code::llm::{
    append_tool_responses_to_chat, get_openai_config, load_tools, request_failed,
    tool_call_announcement, tool_definition_factory, tool_response_event, ChatMessage,
    ChatResponse, EnvVarError, LlmError, LlmSession, MessageToolCall, ResponseMessage,
    ResponseOutcome, ResponseToolCall, BASH_TOOL_PARAMS, MAX_COMPLETION_TOKENS, READ_TOOL_PARAMS,
    WRITE_TOOL_PARAMS,
};
use chris_code::state::{AppState, Message, ToolCall, ToolResponse};

fn session() -> LlmSession {
    LlmSession::new("some/model".to_string(), load_tools())
}

fn reply(content: Option<&str>, tool_calls: Option<Vec<ResponseToolCall>>) -> ChatResponse {
    ChatResponse {
        choices: vec![ResponseMessage { content: content.map(|c| c.to_string()), tool_calls }],
    }
}

#[test]
fn three_tools_are_offered() {
    let tools = load_tools();
    assert_eq!(tools.len(), 3);
    assert_eq!(tools[0].name, "Read");
    assert_eq!(tools[1].name, "Write");
    assert_eq!(tools[2].name, "Bash");
    assert_eq!(
        tools[0].description,
        "Read and return the contents of a file. Takes a `file_path` argument."
    );
    assert_eq!(tools[0].parameters, READ_TOOL_PARAMS);
    assert_eq!(tools[1].parameters, WRITE_TOOL_PARAMS);
    assert_eq!(tools[2].parameters, BASH_TOOL_PARAMS);
    for t in &tools {
        assert!(serde_json::from_str::<serde_json::Value>(&t.parameters).is_ok());
    }
}

#[test]
fn factory_keeps_its_arguments() {
    let t = tool_definition_factory("Name", "Does things", "{}".to_string());
    assert_eq!(t.name, "Name");
    assert_eq!(t.description, "Does things");
    assert_eq!(t.parameters, "{}");
}

#[test]
fn config_defaults_to_openrouter() {
    let c = get_openai_config(None, Ok("key".to_string())).unwrap();
    assert_eq!(c.api_base, "https://openrouter.ai/api/v1");
    assert_eq!(c.api_key, "key");
    let c = get_openai_config(Some("http://localhost:1/v1".to_string()), Ok("k".to_string()))
        .unwrap();
    assert_eq!(c.api_base, "http://localhost:1/v1");
}

#[test]
fn config_needs_the_key() {
    assert_eq!(
        get_openai_config(None, Err(EnvVarError::NotPresent)).unwrap_err(),
        EnvVarError::NotPresent
    );
    assert_eq!(
        get_openai_config(Some("u".to_string()), Err(EnvVarError::NotUnicode)).unwrap_err(),
        EnvVarError::NotUnicode
    );
}

#[test]
fn new_session_is_empty() {
    let s = session();
    assert_eq!(s.request.model, "some/model");
    assert_eq!(s.request.max_completion_tokens, MAX_COMPLETION_TOKENS);
    assert_eq!(s.request.max_completion_tokens, 128);
    assert_eq!(s.request.tools.len(), 3);
    assert!(s.request.messages.is_empty());
}

#[test]
fn prompt_is_appended() {
    let mut s = session();
    s.on_prompt("hi".to_string());
    s.on_prompt("again".to_string());
    assert_eq!(s.request.messages.len(), 2);
    assert!(matches!(&s.request.messages[0], ChatMessage::User(t) if t == "hi"));
    assert!(matches!(&s.request.messages[1], ChatMessage::User(t) if t == "again"));
}

#[test]
fn content_is_streamed_to_the_interface() {
    let mut s = session();
    s.on_prompt("hi".to_string());
    match s.on_response(reply(Some("Hello!"), None)) {
        ResponseOutcome::Reply(events) => {
            assert_eq!(events.len(), 3);
            assert!(matches!(&events[0], LlmEvent::StreamStart));
            assert!(matches!(&events[1], LlmEvent::TokenReceived(t) if t == "Hello!"));
            assert!(matches!(&events[2], LlmEvent::StreamComplete));
        }
        other => panic!("unexpected {:?}", other),
    }
    assert_eq!(s.request.messages.len(), 1);
}

#[test]
fn reply_shows_up_as_agent_message() {
    let (tx, _rx) = tokio::sync::mpsc::unbounded_channel::<String>();
    let mut state = AppState::new(tx, "");
    let s = session();
    if let ResponseOutcome::Reply(events) = s.on_response(reply(Some("Done."), None)) {
        for e in events {
            handle(&mut state, AppEvent::Llm(e));
        }
    }
    assert_eq!(state.messages.len(), 1);
    assert!(matches!(&state.messages[0], Message::Agent(t) if t == "Done."));
    assert!(state.streaming_response.is_none());
}

fn function_call(id: &str, name: &str, arguments: &str, parsed: Option<JsonValue>) -> ResponseToolCall {
    ResponseToolCall {
        call: MessageToolCall::Function {
            id: id.to_string(),
            name: name.to_string(),
            arguments: arguments.to_string(),
        },
        parsed_arguments: parsed,
    }
}

#[test]
fn tool_calls_are_handed_out_to_run() {
    let s = session();
    let args = JsonValue::Object(vec![(
        "command".to_string(),
        JsonValue::String("ls".to_string()),
    )]);
    let calls = vec![
        function_call("call_1", "Bash", "{\"command\":\"ls\"}", Some(args)),
        ResponseToolCall {
            call: MessageToolCall::Custom {
                id: "c".to_string(),
                name: "Other".to_string(),
                input: "x".to_string(),
            },
            parsed_arguments: None,
        },
        function_call("call_2", "Read", "not json", None),
    ];
    match s.on_response(reply(Some("ignored"), Some(calls))) {
        ResponseOutcome::RunTools { executed, calls } => {
            assert_eq!(executed.len(), 2);
            assert!(matches!(&executed[0], MessageToolCall::Function { id, .. } if id == "call_1"));
            assert!(matches!(&executed[1], MessageToolCall::Function { id, .. } if id == "call_2"));
            assert_eq!(calls.len(), 2);
            assert_eq!(calls[0].call_id, "call_1");
            assert_eq!(calls[0].name, "Bash");
            assert_eq!(calls[0].input.get_str("command"), Some("ls"));
            assert_eq!(calls[1].call_id, "call_2");
            assert!(matches!(&calls[1].input, JsonValue::String(t) if t == "not json"));
        }
        other => panic!("unexpected {:?}", other),
    }
    assert!(s.request.messages.is_empty());
}

#[test]
fn failures_are_reported_to_the_interface() {
    let s = session();
    match s.on_response(ChatResponse { choices: vec![] }) {
        ResponseOutcome::Reply(events) => {
            assert_eq!(events.len(), 1);
            assert!(matches!(&events[0], LlmEvent::StreamError(t) if t == "No choices"));
        }
        other => panic!("unexpected {:?}", other),
    }
    match s.on_response(reply(None, None)) {
        ResponseOutcome::Reply(events) => {
            assert!(matches!(&events[0],
                LlmEvent::StreamError(t) if t == "Response had neither tool calls nor content"));
        }
        other => panic!("unexpected {:?}", other),
    }
    let events = request_failed("connection refused".to_string());
    assert_eq!(events.len(), 1);
    assert!(matches!(&events[0], LlmEvent::StreamError(t) if t == "connection refused"));
}

#[test]
fn error_messages() {
    assert_eq!(LlmError::NoChoices.message(), "No choices");
    assert_eq!(
        LlmError::EmptyResponse.message(),
        "Response had neither tool calls nor content"
    );
}

#[test]
fn announcements_copy_the_call_and_response() {
    let call = ToolCall {
        call_id: "1".to_string(),
        name: "Read".to_string(),
        input: JsonValue::Object(vec![("file_path".to_string(), JsonValue::String("a".to_string()))]),
    };
    match tool_call_announcement(&call) {
        LlmEvent::ToolCallRequested(c) => {
            assert_eq!(c.call_id, "1");
            assert_eq!(c.name, "Read");
            assert_eq!(c.input.get_str("file_path"), Some("a"));
        }
        other => panic!("unexpected {:?}", other),
    }
    let response = ToolResponse {
        tool_call_id: "1".to_string(),
        tool_name: "Read".to_string(),
        content: JsonValue::String("text".to_string()),
    };
    match tool_response_event(&response) {
        LlmEvent::ToolResponseReady(r) => {
            assert_eq!(r.tool_call_id, "1");
            assert_eq!(r.tool_name, "Read");
            assert!(matches!(r.content, JsonValue::String(ref t) if t == "text"));
        }
        other => panic!("unexpected {:?}", other),
    }
}

#[test]
fn tool_round_is_appended_in_order() {
    let mut s = session();
    s.on_prompt("go".to_string());
    let calls = vec![
        MessageToolCall::Function {
            id: "a".to_string(),
            name: "Read".to_string(),
            arguments: "{}".to_string(),
        },
        MessageToolCall::Custom {
            id: "b".to_string(),
            name: "Other".to_string(),
            input: "x".to_string(),
        },
    ];
    let responses = vec![
        ToolResponse {
            tool_call_id: "a".to_string(),
            tool_name: "Read".to_string(),
            content: JsonValue::String("line".to_string()),
        },
        ToolResponse {
            tool_call_id: "b".to_string(),
            tool_name: "Other".to_string(),
            content: JsonValue::Null,
        },
    ];
    append_tool_responses_to_chat(&mut s.request, &calls, &responses);
    assert_eq!(s.request.messages.len(), 4);
    assert!(matches!(&s.request.messages[0], ChatMessage::User(t) if t == "go"));
    match &s.request.messages[1] {
        ChatMessage::Assistant(c) => {
            assert_eq!(c.len(), 2);
            assert!(matches!(&c[0], MessageToolCall::Function { id, .. } if id == "a"));
            assert!(matches!(&c[1], MessageToolCall::Custom { input, .. } if input == "x"));
        }
        other => panic!("unexpected {:?}", other),
    }
    assert!(matches!(&s.request.messages[2],
        ChatMessage::Tool { content, tool_call_id } if content == "\"line\"" && tool_call_id == "a"));
    assert!(matches!(&s.request.messages[3],
        ChatMessage::Tool { content, tool_call_id } if content == "null" && tool_call_id == "b"));
}

#[test]
fn tool_message_holds_the_json_text() {
    let mut s = session();
    let responses = vec![ToolResponse {
        tool_call_id: "c1".to_string(),
        tool_name: "Read".to_string(),
        content: JsonValue::String("x".to_string()),
    }];
    append_tool_responses_to_chat(&mut s.request, &[], &responses);
    assert_eq!(s.request.messages.len(), 2);
    assert!(matches!(&s.request.messages[0], ChatMessage::Assistant(c) if c.is_empty()));
    assert!(matches!(&s.request.messages[1],
        ChatMessage::Tool { content, tool_call_id } if content == "\"x\"" && tool_call_id == "c1"));
}

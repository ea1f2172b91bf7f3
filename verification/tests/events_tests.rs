use chris_code::events::{
    handle, AppCommand, AppEvent, InputEvent, KeyCode, KeyEvent, KeyModifiers, LlmEvent, ALT,
    CONTROL, SHIFT,
};
use chris_code::json::JsonValue;
use chris_code::state::{AppState, Message, Mode, ToolCall, ToolResponse};

fn new_state(buffer: &str) -> AppState {
    let (tx, _rx) = tokio::sync::mpsc::unbounded_channel::<String>();
    AppState::new(tx, buffer)
}

fn llm(event: LlmEvent) -> AppEvent {
    AppEvent::Llm(event)
}

fn key(code: KeyCode, bits: u8) -> AppEvent {
    AppEvent::Input(InputEvent::Key(KeyEvent { code, modifiers: KeyModifiers { bits } }))
}

fn agent_text(message: &Message) -> Option<&str> {
    match message {
        Message::Agent(text) => Some(text.as_str()),
        _ => None,
    }
}

#[test]
fn new_state_is_empty_and_running() {
    let state = new_state("hello");
    assert!(state.messages.is_empty());
    assert_eq!(state.user_input_buffer, "hello");
    assert!(state.streaming_response.is_none());
    assert_eq!(state.mode, Mode::Running);
}

#[test]
fn stream_start_tokens_complete_makes_one_agent_message() {
    let mut state = new_state("");
    handle(&mut state, llm(LlmEvent::StreamStart));
    assert_eq!(state.streaming_response.as_deref(), Some(""));
    handle(&mut state, llm(LlmEvent::TokenReceived("Hel".to_string())));
    handle(&mut state, llm(LlmEvent::TokenReceived("lo".to_string())));
    assert_eq!(state.streaming_response.as_deref(), Some("Hello"));
    assert!(state.messages.is_empty());
    handle(&mut state, llm(LlmEvent::StreamComplete));
    assert!(state.streaming_response.is_none());
    assert_eq!(state.messages.len(), 1);
    assert_eq!(agent_text(&state.messages[0]), Some("Hello"));
}

#[test]
fn stream_error_drops_partial_and_reports() {
    let mut state = new_state("");
    handle(&mut state, llm(LlmEvent::StreamStart));
    handle(&mut state, llm(LlmEvent::TokenReceived("partial".to_string())));
    handle(&mut state, llm(LlmEvent::StreamError("timeout".to_string())));
    assert!(state.streaming_response.is_none());
    assert_eq!(state.messages.len(), 1);
    assert_eq!(agent_text(&state.messages[0]), Some("Error: timeout"));
}

#[test]
fn stream_error_without_stream_still_reports() {
    let mut state = new_state("");
    handle(&mut state, llm(LlmEvent::StreamError("boom".to_string())));
    assert_eq!(agent_text(&state.messages[0]), Some("Error: boom"));
}

#[test]
fn token_without_stream_is_dropped() {
    let mut state = new_state("");
    handle(&mut state, llm(LlmEvent::TokenReceived("lost".to_string())));
    assert!(state.streaming_response.is_none());
    assert!(state.messages.is_empty());
}

#[test]
fn complete_without_stream_changes_nothing() {
    let mut state = new_state("");
    handle(&mut state, llm(LlmEvent::StreamComplete));
    assert!(state.messages.is_empty());
    assert!(state.streaming_response.is_none());
}

#[test]
fn restart_discards_partial_response() {
    let mut state = new_state("");
    handle(&mut state, llm(LlmEvent::StreamStart));
    handle(&mut state, llm(LlmEvent::TokenReceived("old".to_string())));
    handle(&mut state, llm(LlmEvent::StreamStart));
    assert_eq!(state.streaming_response.as_deref(), Some(""));
}

#[test]
fn empty_stream_completes_into_empty_message() {
    let mut state = new_state("");
    handle(&mut state, llm(LlmEvent::StreamStart));
    handle(&mut state, llm(LlmEvent::StreamComplete));
    assert_eq!(agent_text(&state.messages[0]), Some(""));
}

#[test]
fn tool_call_and_response_are_recorded_in_order() {
    let mut state = new_state("");
    let call = ToolCall {
        call_id: "c1".to_string(),
        name: "Read".to_string(),
        input: JsonValue::Null,
    };
    let response = ToolResponse {
        tool_call_id: "c1".to_string(),
        tool_name: "Read".to_string(),
        content: JsonValue::String("text".to_string()),
    };
    handle(&mut state, llm(LlmEvent::ToolCallRequested(call)));
    handle(&mut state, llm(LlmEvent::ToolResponseReady(response)));
    assert_eq!(state.messages.len(), 2);
    assert!(matches!(&state.messages[0], Message::ToolCall(c) if c.call_id == "c1"));
    assert!(matches!(&state.messages[1], Message::ToolResponse(r) if r.tool_name == "Read"));
}

#[test]
fn ctrl_c_exits() {
    let mut state = new_state("");
    handle(&mut state, key(KeyCode::Char('c'), CONTROL));
    assert_eq!(state.mode, Mode::Exiting);
}

#[test]
fn ctrl_shift_c_exits() {
    let mut state = new_state("");
    handle(&mut state, key(KeyCode::Char('c'), CONTROL | SHIFT));
    assert_eq!(state.mode, Mode::Exiting);
}

#[test]
fn q_exits() {
    let mut state = new_state("");
    handle(&mut state, key(KeyCode::Char('q'), 0));
    assert_eq!(state.mode, Mode::Exiting);
    assert!(state.messages.is_empty());
}

#[test]
fn plain_c_and_other_keys_do_not_exit() {
    let mut state = new_state("");
    handle(&mut state, key(KeyCode::Char('c'), 0));
    handle(&mut state, key(KeyCode::Char('Q'), 0));
    handle(&mut state, key(KeyCode::Char('x'), CONTROL));
    handle(&mut state, key(KeyCode::Char('c'), ALT));
    handle(&mut state, key(KeyCode::Enter, CONTROL));
    handle(&mut state, AppEvent::Input(InputEvent::Resize(80, 24)));
    assert_eq!(state.mode, Mode::Running);
    assert!(state.messages.is_empty());
}

#[test]
fn quit_command_exits_and_stays_exiting() {
    let mut state = new_state("");
    handle(&mut state, AppEvent::App(AppCommand::Quit));
    assert_eq!(state.mode, Mode::Exiting);
    handle(&mut state, llm(LlmEvent::StreamStart));
    handle(&mut state, key(KeyCode::Char('a'), 0));
    assert_eq!(state.mode, Mode::Exiting);
}

#[test]
fn input_buffer_kept_by_other_events() {
    let mut state = new_state("typed");
    handle(&mut state, llm(LlmEvent::StreamStart));
    handle(&mut state, llm(LlmEvent::TokenReceived("t".to_string())));
    handle(&mut state, llm(LlmEvent::StreamComplete));
    handle(&mut state, key(KeyCode::Char('z'), 0));
    handle(&mut state, AppEvent::App(AppCommand::Quit));
    assert_eq!(state.user_input_buffer, "typed");
}

#[test]
fn enter_submits_the_input_bar() {
    let mut state = new_state("list the files");
    let prompt = handle(&mut state, key(KeyCode::Enter, 0));
    assert_eq!(prompt, Some("list the files".to_string()));
    assert_eq!(state.user_input_buffer, "list the files");
    assert!(state.messages.is_empty());
    assert_eq!(state.mode, Mode::Running);
}

#[test]
fn enter_with_empty_input_submits_nothing() {
    let mut state = new_state("");
    assert_eq!(handle(&mut state, key(KeyCode::Enter, 0)), None);
    assert!(state.messages.is_empty());
}

#[test]
fn other_events_submit_nothing() {
    let mut state = new_state("text");
    assert_eq!(handle(&mut state, key(KeyCode::Char('a'), 0)), None);
    assert_eq!(handle(&mut state, AppEvent::Input(InputEvent::Resize(10, 10))), None);
    assert_eq!(handle(&mut state, llm(LlmEvent::StreamStart)), None);
    assert_eq!(handle(&mut state, AppEvent::App(AppCommand::Quit)), None);
    assert_eq!(handle(&mut state, key(KeyCode::Char('q'), 0)), None);
}

#[test]
fn history_keeps_earlier_messages() {
    let mut state = new_state("");
    handle(&mut state, llm(LlmEvent::StreamError("first".to_string())));
    handle(&mut state, llm(LlmEvent::StreamStart));
    handle(&mut state, llm(LlmEvent::TokenReceived("second".to_string())));
    handle(&mut state, llm(LlmEvent::StreamComplete));
    assert_eq!(state.messages.len(), 2);
    assert_eq!(agent_text(&state.messages[0]), Some("Error: first"));
    assert_eq!(agent_text(&state.messages[1]), Some("second"));
}

#[test]
fn modifiers_contains_checks_every_bit() {
    let m = KeyModifiers { bits: CONTROL | ALT };
    assert!(m.contains(CONTROL));
    assert!(m.contains(CONTROL | ALT));
    assert!(!m.contains(SHIFT));
    assert!(!m.contains(CONTROL | SHIFT));
    assert!(m.contains(0));
}

use vstd::prelude::*;

use crate::json::{JsonValue, JsonView};

verus! {

/// tokio's `UnboundedSender`: the sending half of the channel that carries
/// the user's prompts to the model worker. Opaque: nothing is claimed of
/// what a value of it holds.
#[verifier::external_type_specification]
#[verifier::external_body]
#[verifier::reject_recursive_types(T)]
pub struct ExUnboundedSender<T>(tokio::sync::mpsc::UnboundedSender<T>);

/// The running mode of the application.
#[derive(Clone, Copy, Debug, PartialEq, Eq, Structural)]
pub enum Mode {
    Running,
    Exiting,
}

/// Describes a tool call the model wants to make.
#[derive(Debug)]
pub struct ToolCall {
    pub call_id: String,
    pub name: String,
    pub input: JsonValue,
}

/// The result of executing a tool.
#[derive(Debug)]
pub struct ToolResponse {
    pub tool_call_id: String,
    pub tool_name: String,
    pub content: JsonValue,
}

/// A single message in the conversation history.
#[derive(Debug)]
pub enum Message {
    User(String),
    Agent(String),
    ToolCall(ToolCall),
    ToolResponse(ToolResponse),
}

/// A tool call with its texts as sequences of characters.
pub struct ToolCallView {
    pub call_id: Seq<char>,
    pub name: Seq<char>,
    pub input: JsonView,
}

impl View for ToolCall {
    type V = ToolCallView;

    open spec fn view(&self) -> ToolCallView {
        ToolCallView { call_id: self.call_id@, name: self.name@, input: self.input@ }
    }
}

/// A tool response with its texts as sequences of characters.
pub struct ToolResponseView {
    pub tool_call_id: Seq<char>,
    pub tool_name: Seq<char>,
    pub content: JsonView,
}

impl View for ToolResponse {
    type V = ToolResponseView;

    open spec fn view(&self) -> ToolResponseView {
        ToolResponseView {
            tool_call_id: self.tool_call_id@,
            tool_name: self.tool_name@,
            content: self.content@,
        }
    }
}

impl ToolCall {
    /// A copy of this call.
    pub fn copy(&self) -> (r: ToolCall)
        ensures
            r@ == self@,
    {
        ToolCall { call_id: self.call_id.clone(), name: self.name.clone(), input: self.input.copy() }
    }
}

impl ToolResponse {
    /// A copy of this response.
    pub fn copy(&self) -> (r: ToolResponse)
        ensures
            r@ == self@,
    {
        ToolResponse {
            tool_call_id: self.tool_call_id.clone(),
            tool_name: self.tool_name.clone(),
            content: self.content.copy(),
        }
    }
}

/// A message with its contents as views.
pub enum MessageView {
    User(Seq<char>),
    Agent(Seq<char>),
    ToolCall(ToolCallView),
    ToolResponse(ToolResponseView),
}

impl View for Message {
    type V = MessageView;

    open spec fn view(&self) -> MessageView {
        match self {
            Message::User(text) => MessageView::User(text@),
            Message::Agent(text) => MessageView::Agent(text@),
            Message::ToolCall(call) => MessageView::ToolCall(call@),
            Message::ToolResponse(response) => MessageView::ToolResponse(response@),
        }
    }
}

/// The complete application state. Only the main thread owns this.
pub struct AppState {
    pub messages: Vec<Message>,
    pub main_tx: tokio::sync::mpsc::UnboundedSender<String>,
    pub user_input_buffer: String,
    pub streaming_response: Option<String>,
    pub mode: Mode,
}

/// What the application state holds, apart from the channel to the model
/// worker.
pub struct AppStateView {
    pub messages: Seq<MessageView>,
    pub user_input_buffer: Seq<char>,
    pub streaming_response: Option<Seq<char>>,
    pub mode: Mode,
}

/// The characters of an optional string.
pub open spec fn option_text(s: Option<String>) -> Option<Seq<char>> {
    match s {
        Some(text) => Some(text@),
        None => None,
    }
}

impl View for AppState {
    type V = AppStateView;

    open spec fn view(&self) -> AppStateView {
        AppStateView {
            messages: self.messages@.map_values(|m: Message| m@),
            user_input_buffer: self.user_input_buffer@,
            streaming_response: option_text(self.streaming_response),
            mode: self.mode,
        }
    }
}

impl AppState {
    /// A fresh state: no messages, no response being streamed, running, with
    /// `user_input_buffer` in the input bar.
    pub fn new(
        main_tx: tokio::sync::mpsc::UnboundedSender<String>,
        user_input_buffer: &str,
    ) -> (s: Self)
        ensures
            s@.messages == Seq::<MessageView>::empty(),
            s@.user_input_buffer == user_input_buffer@,
            s@.streaming_response.is_none(),
            s@.mode == Mode::Running,
            s.main_tx == main_tx,
    {
        let s = AppState {
            messages: Vec::new(),
            main_tx,
            user_input_buffer: String::from_str(user_input_buffer),
            streaming_response: None,
            mode: Mode::Running,
        };
        assert(s@.messages =~= Seq::<MessageView>::empty());
        s
    }
}

} // verus!

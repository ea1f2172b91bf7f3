use vstd::prelude::*;

use crate::events::{
    concat, error_prefix, lemma_run_push, lemma_stream_completes, run, stream_events, token_events,
    AppEvent, LlmEvent,
};
use crate::state::{AppStateView, MessageView};
use crate::json::{json_quoted, json_text, JsonValue, JsonView};
use crate::state::{ToolCall, ToolCallView, ToolResponse, ToolResponseView};

verus! {

/// A function the model may call: its name, what it does, and the JSON
/// schema of its parameters (as JSON text).
#[derive(Debug)]
pub struct ToolDefinition {
    pub name: String,
    pub description: String,
    pub parameters: String,
}

/// Builds the definition of a function tool.
pub fn tool_definition_factory(name: &str, description: &str, parameters: String) -> (tool:
    ToolDefinition)
    ensures
        tool.name@ == name@,
        tool.description@ == description@,
        tool.parameters == parameters,
{
    ToolDefinition {
        name: String::from_str(name),
        description: String::from_str(description),
        parameters,
    }
}

/// The JSON schema of the parameters of `Read`.
pub const READ_TOOL_PARAMS: &'static str =
    "{\"type\":\"object\",\"properties\":{\"file_path\":{\"type\":\"string\",\"description\":\"Path of the file to read.\"}},\"required\":[\"file_path\"]}";

/// The JSON schema of the parameters of `Write`.
pub const WRITE_TOOL_PARAMS: &'static str =
    "{\"type\":\"object\",\"properties\":{\"file_path\":{\"type\":\"string\",\"description\":\"Path of the file to write.\"},\"content\":{\"type\":\"string\",\"description\":\"Text to write to the file.\"}},\"required\":[\"file_path\",\"content\"]}";

/// The JSON schema of the parameters of `Bash`.
pub const BASH_TOOL_PARAMS: &'static str =
    "{\"type\":\"object\",\"properties\":{\"command\":{\"type\":\"string\",\"description\":\"Shell command to execute.\"}},\"required\":[\"command\"]}";

/// The tools offered to the model: `Read`, `Write` and `Bash`, in that
/// order.
pub fn load_tools() -> (tools: Vec<ToolDefinition>)
    ensures
        tools@.len() == 3,
        tools@[0].name@ == "Read"@,
        tools@[0].description@
            == "Read and return the contents of a file. Takes a `file_path` argument."@,
        tools@[0].parameters@ == READ_TOOL_PARAMS@,
        tools@[1].name@ == "Write"@,
        tools@[1].description@
            == "Write contents to a file. Takes `file_path` and `content` arguments."@,
        tools@[1].parameters@ == WRITE_TOOL_PARAMS@,
        tools@[2].name@ == "Bash"@,
        tools@[2].description@ == "Execute a shell command. Takes a `command` argument."@,
        tools@[2].parameters@ == BASH_TOOL_PARAMS@,
{
    let read_tool = tool_definition_factory(
        "Read",
        "Read and return the contents of a file. Takes a `file_path` argument.",
        String::from_str(READ_TOOL_PARAMS),
    );
    let write_tool = tool_definition_factory(
        "Write",
        "Write contents to a file. Takes `file_path` and `content` arguments.",
        String::from_str(WRITE_TOOL_PARAMS),
    );
    let bash_tool = tool_definition_factory(
        "Bash",
        "Execute a shell command. Takes a `command` argument.",
        String::from_str(BASH_TOOL_PARAMS),
    );
    let mut tools = Vec::new();
    tools.push(read_tool);
    tools.push(write_tool);
    tools.push(bash_tool);
    tools
}

/// Why an environment variable could not be read.
#[derive(Clone, Copy, Debug, PartialEq, Eq, Structural)]
pub enum EnvVarError {
    NotPresent,
    NotUnicode,
}

/// Where and how to reach the chat completions service.
#[derive(Debug)]
pub struct ApiConfig {
    pub api_base: String,
    pub api_key: String,
}

/// The service used when no base URL is set.
pub open spec fn default_api_base() -> Seq<char> {
    "https://openrouter.ai/api/v1"@
}

/// The configuration made of the values of `OPEN_ROUTER_BASE_URL`
/// (`base_url`, `None` when it could not be read) and
/// `OPEN_ROUTER_API_KEY` (`api_key`): the base URL defaults to OpenRouter's;
/// the key is required, and its error is returned when it could not be
/// read.
pub fn get_openai_config(base_url: Option<String>, api_key: Result<String, EnvVarError>) -> (r:
    Result<ApiConfig, EnvVarError>)
    ensures
        match (api_key, r) {
            (Ok(key), Ok(config)) => {
                &&& config.api_key == key
                &&& config.api_base@ == match base_url {
                    Some(url) => url@,
                    None => default_api_base(),
                }
            },
            (Err(e), Err(f)) => e == f,
            _ => false,
        },
{
    let api_base = match base_url {
        Some(url) => url,
        None => String::from_str("https://openrouter.ai/api/v1"),
    };
    match api_key {
        Ok(key) => Ok(ApiConfig { api_base, api_key: key }),
        Err(e) => Err(e),
    }
}

/// A tool call made by the model.
#[derive(Debug)]
pub enum MessageToolCall {
    Function { id: String, name: String, arguments: String },
    Custom { id: String, name: String, input: String },
}

/// A message sent to the model.
#[derive(Debug)]
pub enum ChatMessage {
    User(String),
    /// The model's turn that requested these tool calls.
    Assistant(Vec<MessageToolCall>),
    /// The result of one tool call, as the JSON text of the response's
    /// content.
    Tool { content: String, tool_call_id: String },
}

/// A chat message with its contents as views.
pub enum ChatMessageView {
    User(Seq<char>),
    Assistant(Seq<MessageToolCall>),
    Tool { content: Seq<char>, tool_call_id: Seq<char> },
}

impl View for ChatMessage {
    type V = ChatMessageView;

    open spec fn view(&self) -> ChatMessageView {
        match self {
            ChatMessage::User(text) => ChatMessageView::User(text@),
            ChatMessage::Assistant(calls) => ChatMessageView::Assistant(calls@),
            ChatMessage::Tool { content, tool_call_id } => ChatMessageView::Tool {
                content: content@,
                tool_call_id: tool_call_id@,
            },
        }
    }
}

/// A chat completion request.
#[derive(Debug)]
pub struct ChatRequest {
    pub model: String,
    pub max_completion_tokens: u32,
    pub tools: Vec<ToolDefinition>,
    pub messages: Vec<ChatMessage>,
}

/// The messages of a request, as views.
pub open spec fn messages_view(messages: Seq<ChatMessage>) -> Seq<ChatMessageView> {
    messages.map_values(|m: ChatMessage| m@)
}

/// The tool message that carries `response` back to the model: the JSON
/// text of its content, and the id of its call.
pub open spec fn tool_message(response: ToolResponseView) -> ChatMessageView {
    ChatMessageView::Tool {
        content: json_text(response.content),
        tool_call_id: response.tool_call_id,
    }
}

/// How the conversation grows: by a prompt, or by a round of tool calls
/// with their responses.
pub enum Growth {
    Prompt(Seq<char>),
    ToolRound(Seq<MessageToolCall>, Seq<ToolResponseView>),
}

/// The conversation `messages` after `growth`: a prompt adds the user's
/// message; a tool round adds the assistant turn that made the calls, then
/// one tool message per response, in order.
pub open spec fn grown(messages: Seq<ChatMessageView>, growth: Growth) -> Seq<ChatMessageView> {
    match growth {
        Growth::Prompt(prompt) => messages.push(ChatMessageView::User(prompt)),
        Growth::ToolRound(calls, responses) => messages.push(ChatMessageView::Assistant(calls))
            + responses.map_values(|r: ToolResponseView| tool_message(r)),
    }
}

/// The conversation after each growth of `growths`, in order.
pub open spec fn grown_all(messages: Seq<ChatMessageView>, growths: Seq<Growth>) -> Seq<
    ChatMessageView,
>
    decreases growths.len(),
{
    if growths.len() == 0 {
        messages
    } else {
        grown(grown_all(messages, growths.drop_last()), growths.last())
    }
}

/// The texts of the user's messages, in order.
pub open spec fn user_texts(messages: Seq<ChatMessageView>) -> Seq<Seq<char>>
    decreases messages.len(),
{
    if messages.len() == 0 {
        Seq::empty()
    } else {
        match messages.last() {
            ChatMessageView::User(text) => user_texts(messages.drop_last()).push(text),
            _ => user_texts(messages.drop_last()),
        }
    }
}

/// The prompts among `growths`, in order.
pub open spec fn prompts(growths: Seq<Growth>) -> Seq<Seq<char>>
    decreases growths.len(),
{
    if growths.len() == 0 {
        Seq::empty()
    } else {
        match growths.last() {
            Growth::Prompt(p) => prompts(growths.drop_last()).push(p),
            _ => prompts(growths.drop_last()),
        }
    }
}

/// The user's messages of two conversations put together.
proof fn lemma_user_texts_append(a: Seq<ChatMessageView>, b: Seq<ChatMessageView>)
    ensures
        user_texts(a + b) == user_texts(a) + user_texts(b),
    decreases b.len(),
{
    if b.len() == 0 {
        assert(a + b =~= a);
        assert(user_texts(a) + user_texts(b) =~= user_texts(a));
    } else {
        lemma_user_texts_append(a, b.drop_last());
        assert((a + b).drop_last() =~= a + b.drop_last());
        assert((a + b).last() == b.last());
        match b.last() {
            ChatMessageView::User(t) => {
                assert(user_texts(a) + user_texts(b) =~= (user_texts(a) + user_texts(b.drop_last())).push(t));
            },
            _ => {},
        }
    }
}

/// Tool messages hold no user text.
proof fn lemma_no_user_texts_in_tool_messages(responses: Seq<ToolResponseView>)
    ensures
        user_texts(responses.map_values(|r: ToolResponseView| tool_message(r))) == Seq::<
            Seq<char>,
        >::empty(),
    decreases responses.len(),
{
    if responses.len() > 0 {
        lemma_no_user_texts_in_tool_messages(responses.drop_last());
        assert(responses.map_values(|r: ToolResponseView| tool_message(r)).drop_last()
            =~= responses.drop_last().map_values(|r: ToolResponseView| tool_message(r)));
    } else {
        assert(responses.map_values(|r: ToolResponseView| tool_message(r)) =~= Seq::<
            ChatMessageView,
        >::empty());
    }
}

/// Requests only grow: whatever prompts and tool rounds follow, the
/// earlier messages stay, in order, at the front of the conversation, and
/// the user's messages are the earlier ones followed by the prompts, each
/// once, in the order they came.
pub proof fn lemma_requests_grow(messages: Seq<ChatMessageView>, growths: Seq<Growth>)
    ensures
        grown_all(messages, growths).len() >= messages.len(),
        grown_all(messages, growths).subrange(0, messages.len() as int) == messages,
        user_texts(grown_all(messages, growths)) == user_texts(messages) + prompts(growths),
    decreases growths.len(),
{
    if growths.len() == 0 {
        assert(messages.subrange(0, messages.len() as int) =~= messages);
        assert(user_texts(messages) + prompts(growths) =~= user_texts(messages));
    } else {
        let front = growths.drop_last();
        lemma_requests_grow(messages, front);
        let before = grown_all(messages, front);
        let after = grown_all(messages, growths);
        match growths.last() {
            Growth::Prompt(p) => {
                assert(after == before.push(ChatMessageView::User(p)));
                assert(after.drop_last() =~= before);
                assert(user_texts(messages) + prompts(growths) =~= (user_texts(messages)
                    + prompts(front)).push(p));
            },
            Growth::ToolRound(calls, responses) => {
                let tools = responses.map_values(|r: ToolResponseView| tool_message(r));
                let with_turn = before.push(ChatMessageView::Assistant(calls));
                assert(after == with_turn + tools);
                lemma_user_texts_append(with_turn, tools);
                lemma_no_user_texts_in_tool_messages(responses);
                assert(with_turn.drop_last() =~= before);
                assert(user_texts(with_turn) + Seq::<Seq<char>>::empty() =~= user_texts(with_turn));
            },
        }
        assert(after.subrange(0, messages.len() as int) =~= before.subrange(
            0,
            messages.len() as int,
        ));
    }
}

/// A tool round adds, after the conversation so far, the assistant turn
/// with the calls and then, for each response in order, one tool message
/// whose text is the JSON text of that response's content (for a string,
/// its JSON string literal) and whose id is that response's call id.
pub proof fn lemma_tool_round_messages(
    messages: Seq<ChatMessageView>,
    calls: Seq<MessageToolCall>,
    responses: Seq<ToolResponseView>,
)
    ensures
        ({
            let after = grown(messages, Growth::ToolRound(calls, responses));
            &&& after.len() == messages.len() + 1 + responses.len()
            &&& after.subrange(0, messages.len() as int) == messages
            &&& after[messages.len() as int] == ChatMessageView::Assistant(calls)
            &&& forall|k: int|
                0 <= k < responses.len() ==> after[messages.len() + 1 + k] == (ChatMessageView::Tool {
                    content: json_text(#[trigger] responses[k].content),
                    tool_call_id: responses[k].tool_call_id,
                })
            &&& forall|k: int|
                0 <= k < responses.len() ==> (#[trigger] responses[k].content matches JsonView::String(
                    t,
                ) ==> after[messages.len() + 1 + k] == (ChatMessageView::Tool {
                    content: json_quoted(t),
                    tool_call_id: responses[k].tool_call_id,
                }))
        }),
{
    let after = grown(messages, Growth::ToolRound(calls, responses));
    assert(after.subrange(0, messages.len() as int) =~= messages);
}

/// A copy of `call`.
fn copy_tool_call(call: &MessageToolCall) -> (r: MessageToolCall)
    ensures
        r == *call,
{
    match call {
        MessageToolCall::Function { id, name, arguments } => MessageToolCall::Function {
            id: id.clone(),
            name: name.clone(),
            arguments: arguments.clone(),
        },
        MessageToolCall::Custom { id, name, input } => MessageToolCall::Custom {
            id: id.clone(),
            name: name.clone(),
            input: input.clone(),
        },
    }
}

/// The views of `responses`, in order.
pub open spec fn responses_view(responses: Seq<ToolResponse>) -> Seq<ToolResponseView> {
    responses.map_values(|r: ToolResponse| r@)
}

/// Appends to the conversation the assistant turn that made `tool_calls`,
/// then one tool message per response, in order, each with the JSON text of
/// the response's content.
pub fn append_tool_responses_to_chat(
    request: &mut ChatRequest,
    tool_calls: &[MessageToolCall],
    tool_responses: &[ToolResponse],
)
    ensures
        messages_view(final(request).messages@) == grown(
            messages_view(old(request).messages@),
            Growth::ToolRound(tool_calls@, responses_view(tool_responses@)),
        ),
        final(request).model == old(request).model,
        final(request).max_completion_tokens == old(request).max_completion_tokens,
        final(request).tools == old(request).tools,
{
    let mut calls: Vec<MessageToolCall> = Vec::new();
    let mut i: usize = 0;
    while i < tool_calls.len()
        invariant
            i <= tool_calls@.len(),
            calls@ == tool_calls@.subrange(0, i as int),
        decreases tool_calls@.len() - i,
    {
        calls.push(copy_tool_call(&tool_calls[i]));
        assert(calls@ =~= tool_calls@.subrange(0, i + 1));
        i += 1;
    }
    assert(calls@ =~= tool_calls@);
    let ghost start = messages_view(request.messages@);
    let ghost all = responses_view(tool_responses@);
    request.messages.push(ChatMessage::Assistant(calls));
    assert(messages_view(request.messages@) =~= start.push(ChatMessageView::Assistant(tool_calls@)));
    let mut j: usize = 0;
    while j < tool_responses.len()
        invariant
            j <= tool_responses@.len(),
            all == responses_view(tool_responses@),
            messages_view(request.messages@) == start.push(ChatMessageView::Assistant(tool_calls@))
                + all.subrange(0, j as int).map_values(|r: ToolResponseView| tool_message(r)),
            request.model == old(request).model,
            request.max_completion_tokens == old(request).max_completion_tokens,
            request.tools == old(request).tools,
        decreases tool_responses@.len() - j,
    {
        let response = &tool_responses[j];
        let message = ChatMessage::Tool {
            content: response.content.to_json_text(),
            tool_call_id: response.tool_call_id.clone(),
        };
        let ghost before = request.messages@;
        request.messages.push(message);
        assert(messages_view(request.messages@) =~= messages_view(before).push(message@));
        assert(all.subrange(0, j + 1).map_values(|r: ToolResponseView| tool_message(r))
            =~= all.subrange(0, j as int).map_values(|r: ToolResponseView| tool_message(r)).push(
            tool_message(response@),
        ));
        j += 1;
    }
    assert(all.subrange(0, tool_responses@.len() as int) =~= all);
}

/// A tool call of a completion, with its arguments as parsed JSON when
/// they are valid JSON text.
#[derive(Debug)]
pub struct ResponseToolCall {
    pub call: MessageToolCall,
    pub parsed_arguments: Option<JsonValue>,
}

/// The message of one choice of a chat completion.
#[derive(Debug)]
pub struct ResponseMessage {
    pub content: Option<String>,
    pub tool_calls: Option<Vec<ResponseToolCall>>,
}

/// A chat completion: the messages of its choices, in order.
#[derive(Debug)]
pub struct ChatResponse {
    pub choices: Vec<ResponseMessage>,
}

/// Why a completion could not be used.
#[derive(Clone, Copy, Debug, PartialEq, Eq, Structural)]
pub enum LlmError {
    /// The completion had no choices.
    NoChoices,
    /// The first choice had neither tool calls nor content.
    EmptyResponse,
}

/// The text that describes an error.
pub open spec fn error_text(e: LlmError) -> Seq<char> {
    match e {
        LlmError::NoChoices => "No choices"@,
        LlmError::EmptyResponse => "Response had neither tool calls nor content"@,
    }
}

impl LlmError {
    /// The text that describes this error.
    pub fn message(&self) -> (text: String)
        ensures
            text@ == error_text(*self),
    {
        match self {
            LlmError::NoChoices => String::from_str("No choices"),
            LlmError::EmptyResponse => String::from_str(
                "Response had neither tool calls nor content",
            ),
        }
    }
}

/// What follows a completion. Either way, the worker then waits for the
/// next prompt.
#[derive(Debug)]
pub enum ResponseOutcome {
    /// Send these events to the interface, in order.
    Reply(Vec<LlmEvent>),
    /// For each call of `calls`, in order: announce it
    /// (`tool_call_announcement`), run it, and report its response
    /// (`tool_response_event`); then record the round with
    /// `append_tool_responses_to_chat(executed, responses)`.
    RunTools { executed: Vec<MessageToolCall>, calls: Vec<ToolCall> },
}

/// The function calls among `calls`, in order.
pub open spec fn function_calls(calls: Seq<ResponseToolCall>) -> Seq<MessageToolCall>
    decreases calls.len(),
{
    if calls.len() == 0 {
        Seq::empty()
    } else {
        match calls.last().call {
            MessageToolCall::Function { .. } => function_calls(calls.drop_last()).push(
                calls.last().call,
            ),
            _ => function_calls(calls.drop_last()),
        }
    }
}

/// The tool call to run for a function call: its id, its name, and its
/// arguments as parsed JSON, or as a JSON string when they are not valid
/// JSON.
pub open spec fn requested_call(id: String, name: String, arguments: String, parsed: Option<JsonValue>) -> ToolCallView {
    ToolCallView {
        call_id: id@,
        name: name@,
        input: match parsed {
            Some(v) => v@,
            None => JsonView::String(arguments@),
        },
    }
}

/// The tool calls to run for the function calls among `calls`, in order.
pub open spec fn requested_calls(calls: Seq<ResponseToolCall>) -> Seq<ToolCallView>
    decreases calls.len(),
{
    if calls.len() == 0 {
        Seq::empty()
    } else {
        match calls.last().call {
            MessageToolCall::Function { id, name, arguments } => requested_calls(
                calls.drop_last(),
            ).push(requested_call(id, name, arguments, calls.last().parsed_arguments)),
            _ => requested_calls(calls.drop_last()),
        }
    }
}

/// Whether a tool call of a completion is a function call.
pub open spec fn is_function_call(r: ResponseToolCall) -> bool {
    r.call is Function
}

/// The function calls of a completion are run in the order they came, each
/// once, and the custom calls are left out: the calls recorded as executed
/// are exactly the function calls among the completion's calls, in order,
/// and the k-th call to run carries the id and name of the k-th of them,
/// with its arguments as parsed, or as a JSON string when they did not
/// parse.
pub proof fn lemma_calls_to_run(calls: Seq<ResponseToolCall>)
    ensures
        ({
            let functions = calls.filter(|r: ResponseToolCall| is_function_call(r));
            &&& function_calls(calls) == functions.map_values(|r: ResponseToolCall| r.call)
            &&& requested_calls(calls).len() == functions.len()
            &&& forall|k: int|
                0 <= k < functions.len() ==> ((#[trigger] functions[k]).call matches MessageToolCall::Function {
                    id,
                    name,
                    arguments,
                } ==> requested_calls(calls)[k] == (ToolCallView {
                    call_id: id@,
                    name: name@,
                    input: match functions[k].parsed_arguments {
                        Some(v) => v@,
                        None => JsonView::String(arguments@),
                    },
                }))
        }),
    decreases calls.len(),
{
    reveal_with_fuel(Seq::<ResponseToolCall>::filter, 1);
    let functions = calls.filter(|r: ResponseToolCall| is_function_call(r));
    if calls.len() > 0 {
        let front = calls.drop_last();
        lemma_calls_to_run(front);
        let before = front.filter(|r: ResponseToolCall| is_function_call(r));
        if is_function_call(calls.last()) {
            assert(functions == before.push(calls.last()));
            assert(functions.map_values(|r: ResponseToolCall| r.call) =~= before.map_values(
                |r: ResponseToolCall| r.call,
            ).push(calls.last().call));
            assert forall|k: int|
                0 <= k < functions.len() implies ((#[trigger] functions[k]).call matches MessageToolCall::Function {
                    id,
                    name,
                    arguments,
                } ==> requested_calls(calls)[k] == (ToolCallView {
                    call_id: id@,
                    name: name@,
                    input: match functions[k].parsed_arguments {
                        Some(v) => v@,
                        None => JsonView::String(arguments@),
                    },
                })) by {
                if k < before.len() {
                    assert(functions[k] == before[k]);
                }
            }
        } else {
            assert(functions == before);
        }
    } else {
        assert(functions.map_values(|r: ResponseToolCall| r.call) =~= Seq::<MessageToolCall>::empty());
    }
}

/// The events that deliver `text` to the interface as a complete response.
pub open spec fn is_reply(events: Seq<LlmEvent>, text: String) -> bool {
    &&& events.len() == 3
    &&& events[0] matches LlmEvent::StreamStart
    &&& events[1] == LlmEvent::TokenReceived(text)
    &&& events[2] matches LlmEvent::StreamComplete
}

/// The event that reports `text` as an error to the interface.
pub open spec fn is_error_report(events: Seq<LlmEvent>, text: Seq<char>) -> bool {
    &&& events.len() == 1
    &&& events[0] matches LlmEvent::StreamError(e)
    &&& e@ == text
}

/// The events that report `error`, the text of a failed request, to the
/// interface.
pub fn request_failed(error: String) -> (events: Vec<LlmEvent>)
    ensures
        is_error_report(events@, error@),
{
    let mut events = Vec::new();
    events.push(LlmEvent::StreamError(error));
    events
}

/// The event that announces `call` to the interface.
pub fn tool_call_announcement(call: &ToolCall) -> (event: LlmEvent)
    ensures
        event matches LlmEvent::ToolCallRequested(c) && c@ == call@,
{
    LlmEvent::ToolCallRequested(call.copy())
}

/// The event that reports `response` to the interface.
pub fn tool_response_event(response: &ToolResponse) -> (event: LlmEvent)
    ensures
        event matches LlmEvent::ToolResponseReady(r) && r@ == response@,
{
    LlmEvent::ToolResponseReady(response.copy())
}

/// The largest number of tokens a completion may have.
pub const MAX_COMPLETION_TOKENS: u32 = 128;

/// The conversation that the model worker holds with the model: the
/// request that grows with each prompt and each tool round.
#[derive(Debug)]
pub struct LlmSession {
    pub request: ChatRequest,
}

impl LlmSession {
    /// A conversation with `model` that offers `tools`, with no message yet.
    pub fn new(model: String, tools: Vec<ToolDefinition>) -> (session: LlmSession)
        ensures
            session.request.model == model,
            session.request.max_completion_tokens == MAX_COMPLETION_TOKENS,
            session.request.tools == tools,
            session.request.messages@.len() == 0,
    {
        LlmSession {
            request: ChatRequest {
                model,
                max_completion_tokens: MAX_COMPLETION_TOKENS,
                tools,
                messages: Vec::new(),
            },
        }
    }

    /// Adds the user's prompt to the conversation; the request is then ready
    /// to be sent.
    pub fn on_prompt(&mut self, prompt: String)
        ensures
            messages_view(final(self).request.messages@) == grown(
                messages_view(old(self).request.messages@),
                Growth::Prompt(prompt@),
            ),
            final(self).request.model == old(self).request.model,
            final(self).request.max_completion_tokens == old(self).request.max_completion_tokens,
            final(self).request.tools == old(self).request.tools,
    {
        let ghost before = self.request.messages@;
        self.request.messages.push(ChatMessage::User(prompt));
        assert(messages_view(self.request.messages@) =~= messages_view(before).push(
            ChatMessageView::User(prompt@),
        ));
    }

    /// Decides what follows `response`, the completion of the request. The
    /// first choice counts. When it asks for tools, the function calls among
    /// them are to be run (custom tool calls are not run); otherwise its
    /// content is delivered to the interface as a whole streamed response;
    /// with no choice, or a choice with neither, the error is reported to
    /// the interface. The conversation is not changed here.
    pub fn on_response(&self, response: ChatResponse) -> (outcome: ResponseOutcome)
        ensures
            response.choices@.len() == 0 ==> (outcome matches ResponseOutcome::Reply(events)
                && is_error_report(events@, error_text(LlmError::NoChoices))),
            response.choices@.len() > 0 ==> {
                let first = response.choices@[0];
                match first.tool_calls {
                    Some(calls) => outcome matches ResponseOutcome::RunTools { executed, calls: to_run }
                        && executed@ == function_calls(calls@)
                        && to_run@.map_values(|c: ToolCall| c@) == requested_calls(calls@),
                    None => match first.content {
                        Some(text) => outcome matches ResponseOutcome::Reply(events)
                            && is_reply(events@, text),
                        None => outcome matches ResponseOutcome::Reply(events)
                            && is_error_report(events@, error_text(LlmError::EmptyResponse)),
                    },
                }
            },
    {
        let mut choices = response.choices;
        if choices.len() == 0 {
            return ResponseOutcome::Reply(request_failed(LlmError::NoChoices.message()));
        }
        let first = choices.swap_remove(0);
        match first.tool_calls {
            Some(tool_calls) => {
                let (executed, calls) = calls_to_run(&tool_calls);
                ResponseOutcome::RunTools { executed, calls }
            },
            None => match first.content {
                Some(message) => {
                    let mut events = Vec::new();
                    events.push(LlmEvent::StreamStart);
                    events.push(LlmEvent::TokenReceived(message));
                    events.push(LlmEvent::StreamComplete);
                    ResponseOutcome::Reply(events)
                },
                None => ResponseOutcome::Reply(
                    request_failed(LlmError::EmptyResponse.message()),
                ),
            },
        }
    }
}

/// The function calls among `tool_calls`, and the tool calls to run for
/// them, in order.
fn calls_to_run(tool_calls: &Vec<ResponseToolCall>) -> (r: (Vec<MessageToolCall>, Vec<ToolCall>))
    ensures
        r.0@ == function_calls(tool_calls@),
        r.1@.map_values(|c: ToolCall| c@) == requested_calls(tool_calls@),
{
    let mut executed: Vec<MessageToolCall> = Vec::new();
    let mut calls: Vec<ToolCall> = Vec::new();
    let mut i: usize = 0;
    while i < tool_calls.len()
        invariant
            i <= tool_calls@.len(),
            executed@ == function_calls(tool_calls@.take(i as int)),
            calls@.map_values(|c: ToolCall| c@) == requested_calls(tool_calls@.take(i as int)),
        decreases tool_calls@.len() - i,
    {
        let ghost prefix = tool_calls@.take(i + 1);
        assert(prefix.drop_last() =~= tool_calls@.take(i as int));
        assert(prefix.last() == tool_calls@[i as int]);
        let entry = &tool_calls[i];
        match &entry.call {
            MessageToolCall::Function { id, name, arguments } => {
                let input = match &entry.parsed_arguments {
                    Some(v) => v.copy(),
                    None => JsonValue::String(arguments.clone()),
                };
                let call = ToolCall { call_id: id.clone(), name: name.clone(), input };
                let ghost before = calls@;
                calls.push(call);
                assert(calls@.map_values(|c: ToolCall| c@) =~= before.map_values(|c: ToolCall| c@).push(call@));
                executed.push(copy_tool_call(&entry.call));
            },
            MessageToolCall::Custom { .. } => {},
        }
        i += 1;
    }
    assert(tool_calls@.take(tool_calls@.len() as int) =~= tool_calls@);
    (executed, calls)
}


/// The events of `events` as application events.
pub open spec fn as_app_events(events: Seq<LlmEvent>) -> Seq<AppEvent> {
    events.map_values(|e: LlmEvent| AppEvent::Llm(e))
}

/// A reply delivered to the interface ends as one new message in the
/// history, the agent's message with the reply's text, with no response
/// left streaming.
pub proof fn lemma_reply_shown(s: AppStateView, events: Seq<LlmEvent>, text: String)
    requires
        is_reply(events, text),
    ensures
        run(s, as_app_events(events)) == (AppStateView {
            messages: s.messages.push(MessageView::Agent(text@)),
            streaming_response: None,
            ..s
        }),
{
    let tokens = seq![text];
    assert(token_events(tokens) =~= seq![AppEvent::Llm(LlmEvent::TokenReceived(text))]);
    assert(as_app_events(events) =~= stream_events(tokens, LlmEvent::StreamComplete));
    lemma_stream_completes(s, tokens);
    assert(tokens.drop_last() =~= Seq::<String>::empty());
    assert(concat(tokens.drop_last()) == Seq::<char>::empty());
    assert(tokens.last() == text);
    assert(concat(tokens) == concat(tokens.drop_last()) + tokens.last()@);
    assert(concat(tokens) =~= text@);
}

/// A reported error ends as one new message in the history, the error
/// text after "Error: ", with no response left streaming.
pub proof fn lemma_error_shown(s: AppStateView, events: Seq<LlmEvent>, text: Seq<char>)
    requires
        is_error_report(events, text),
    ensures
        run(s, as_app_events(events)) == (AppStateView {
            messages: s.messages.push(MessageView::Agent(error_prefix() + text)),
            streaming_response: None,
            ..s
        }),
{
    assert(as_app_events(events) =~= Seq::<AppEvent>::empty().push(AppEvent::Llm(events[0])));
    lemma_run_push(s, Seq::empty(), AppEvent::Llm(events[0]));
}

} // verus!

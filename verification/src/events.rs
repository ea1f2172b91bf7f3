use vstd::prelude::*;

use crate::state::{
    AppState, AppStateView, Message, MessageView, Mode, ToolCall, ToolResponse,
};

verus! {

/// The bit of the Shift modifier.
pub const SHIFT: u8 = 0b0000_0001;

/// The bit of the Control modifier.
pub const CONTROL: u8 = 0b0000_0010;

/// The bit of the Alt modifier.
pub const ALT: u8 = 0b0000_0100;

/// The bit of the Super modifier.
pub const SUPER: u8 = 0b0000_1000;

/// The bit of the Hyper modifier.
pub const HYPER: u8 = 0b0001_0000;

/// The bit of the Meta modifier.
pub const META: u8 = 0b0010_0000;

/// The modifier keys held during a key press, one bit each.
#[derive(Clone, Copy, Debug, PartialEq, Eq, Structural)]
pub struct KeyModifiers {
    pub bits: u8,
}

impl KeyModifiers {
    /// Whether every modifier of `flags` is held.
    pub fn contains(&self, flags: u8) -> (r: bool)
        ensures
            r == (self.bits & flags == flags),
    {
        self.bits & flags == flags
    }
}

/// The key of a key press.
#[derive(Clone, Copy, Debug, PartialEq, Eq, Structural)]
pub enum KeyCode {
    Backspace,
    Enter,
    Left,
    Right,
    Up,
    Down,
    Home,
    End,
    PageUp,
    PageDown,
    Tab,
    BackTab,
    Delete,
    Insert,
    F(u8),
    Char(char),
    Null,
    Esc,
    CapsLock,
    ScrollLock,
    NumLock,
    PrintScreen,
    Pause,
    Menu,
    KeypadBegin,
    Media,
    Modifier,
}

/// A key press: the key and the modifiers held with it.
#[derive(Clone, Copy, Debug, PartialEq, Eq, Structural)]
pub struct KeyEvent {
    pub code: KeyCode,
    pub modifiers: KeyModifiers,
}

/// Every possible thing that can happen in the application.
#[derive(Debug)]
pub enum AppEvent {
    Input(InputEvent),
    Llm(LlmEvent),
    App(AppCommand),
}

/// Events from the keyboard/terminal.
#[derive(Debug)]
pub enum InputEvent {
    Key(KeyEvent),
    Resize(u16, u16),
}

/// Events from the model worker thread.
#[derive(Debug)]
pub enum LlmEvent {
    StreamStart,
    TokenReceived(String),
    StreamComplete,
    StreamError(String),
    ToolCallRequested(ToolCall),
    ToolResponseReady(ToolResponse),
}

/// Internal application commands.
#[derive(Clone, Copy, Debug, PartialEq, Eq, Structural)]
pub enum AppCommand {
    Quit,
}

/// The text that precedes an error in the conversation.
pub open spec fn error_prefix() -> Seq<char> {
    seq!['E', 'r', 'r', 'o', 'r', ':', ' ']
}

/// Ctrl+C or `q`: the key presses that stop the application.
pub open spec fn is_quit_key(key: KeyEvent) -> bool {
    ||| key.modifiers.bits & CONTROL == CONTROL && key.code == KeyCode::Char('c')
    ||| key.code == KeyCode::Char('q')
}

/// Enter: the key press that submits the input bar.
pub open spec fn is_submit_key(key: KeyEvent) -> bool {
    key.code == KeyCode::Enter
}

/// The state after a terminal event: a quit key stops the application;
/// nothing else changes the state.
pub open spec fn input_step(s: AppStateView, event: InputEvent) -> AppStateView {
    match event {
        InputEvent::Key(key) => if is_quit_key(key) {
            AppStateView { mode: Mode::Exiting, ..s }
        } else {
            s
        },
        InputEvent::Resize(_, _) => s,
    }
}

/// The prompt that `event` submits to the model worker: the text of the
/// input bar, on Enter when the input bar holds text; nothing otherwise.
pub open spec fn submitted(s: AppStateView, event: AppEvent) -> Option<Seq<char>> {
    match event {
        AppEvent::Input(InputEvent::Key(key)) => if !is_quit_key(key) && is_submit_key(key)
            && s.user_input_buffer.len() > 0 {
            Some(s.user_input_buffer)
        } else {
            None
        },
        _ => None,
    }
}

/// The characters of an optional prompt.
pub open spec fn prompt_text(p: Option<String>) -> Option<Seq<char>> {
    match p {
        Some(text) => Some(text@),
        None => None,
    }
}

/// The state after an event from the model worker.
pub open spec fn llm_step(s: AppStateView, event: LlmEvent) -> AppStateView {
    match event {
        LlmEvent::StreamStart => AppStateView { streaming_response: Some(Seq::empty()), ..s },
        LlmEvent::TokenReceived(token) => match s.streaming_response {
            Some(partial) => AppStateView { streaming_response: Some(partial + token@), ..s },
            None => s,
        },
        LlmEvent::StreamComplete => match s.streaming_response {
            Some(partial) => AppStateView {
                messages: s.messages.push(MessageView::Agent(partial)),
                streaming_response: None,
                ..s
            },
            None => s,
        },
        LlmEvent::StreamError(error) => AppStateView {
            messages: s.messages.push(MessageView::Agent(error_prefix() + error@)),
            streaming_response: None,
            ..s
        },
        LlmEvent::ToolCallRequested(call) => AppStateView {
            messages: s.messages.push(MessageView::ToolCall(call@)),
            ..s
        },
        LlmEvent::ToolResponseReady(response) => AppStateView {
            messages: s.messages.push(MessageView::ToolResponse(response@)),
            ..s
        },
    }
}

/// The state after an internal command.
pub open spec fn app_step(s: AppStateView, command: AppCommand) -> AppStateView {
    match command {
        AppCommand::Quit => AppStateView { mode: Mode::Exiting, ..s },
    }
}

/// The state after one event.
pub open spec fn step(s: AppStateView, event: AppEvent) -> AppStateView {
    match event {
        AppEvent::Input(input) => input_step(s, input),
        AppEvent::Llm(llm) => llm_step(s, llm),
        AppEvent::App(command) => app_step(s, command),
    }
}

/// Process an event and update the application state accordingly. The
/// result is the prompt to send to the model worker on `state.main_tx`, if
/// the event submits one.
pub fn handle(state: &mut AppState, event: AppEvent) -> (prompt: Option<String>)
    ensures
        final(state)@ == step(old(state)@, event),
        final(state).main_tx == old(state).main_tx,
        prompt_text(prompt) == submitted(old(state)@, event),
{
    match event {
        AppEvent::Input(input_event) => handle_input(state, &input_event),
        AppEvent::Llm(llm_event) => {
            handle_llm(state, llm_event);
            None
        },
        AppEvent::App(app_command) => {
            handle_app(state, &app_command);
            None
        },
    }
}

fn handle_input(state: &mut AppState, event: &InputEvent) -> (prompt: Option<String>)
    ensures
        final(state)@ == input_step(old(state)@, *event),
        final(state).main_tx == old(state).main_tx,
        prompt_text(prompt) == submitted(old(state)@, AppEvent::Input(*event)),
{
    if let InputEvent::Key(key_event) = event {
        if (key_event.modifiers.contains(CONTROL) && key_event.code == KeyCode::Char('c'))
            || key_event.code == KeyCode::Char('q') {
            state.mode = Mode::Exiting;
            None
        } else if key_event.code == KeyCode::Enter && !state.user_input_buffer.as_str().is_empty() {
            Some(state.user_input_buffer.clone())
        } else {
            None
        }
    } else {
        None
    }
}

/// Appends `message` to the history.
fn push_message(state: &mut AppState, message: Message)
    ensures
        final(state)@ == (AppStateView {
            messages: old(state)@.messages.push(message@),
            ..old(state)@
        }),
        final(state).main_tx == old(state).main_tx,
{
    let ghost before = state.messages@;
    state.messages.push(message);
    assert(state.messages@.map_values(|m: Message| m@) =~= before.map_values(|m: Message| m@).push(
        message@,
    ));
}

fn handle_llm(state: &mut AppState, event: LlmEvent)
    ensures
        final(state)@ == llm_step(old(state)@, event),
        final(state).main_tx == old(state).main_tx,
{
    match event {
        LlmEvent::StreamStart => {
            state.streaming_response = Some(String::new());
        },
        LlmEvent::TokenReceived(token) => {
            if let Some(mut response) = state.streaming_response.take() {
                response.append(token.as_str());
                state.streaming_response = Some(response);
            }
        },
        LlmEvent::StreamComplete => {
            if let Some(response) = state.streaming_response.take() {
                push_message(state, Message::Agent(response));
            }
        },
        LlmEvent::StreamError(error) => {
            state.streaming_response = None;
            proof {
                reveal_strlit("Error: ");
            }
            assert("Error: "@ =~= error_prefix());
            let mut text = String::from_str("Error: ");
            text.append(error.as_str());
            push_message(state, Message::Agent(text));
        },
        LlmEvent::ToolCallRequested(tool_call) => {
            push_message(state, Message::ToolCall(tool_call));
        },
        LlmEvent::ToolResponseReady(tool_response) => {
            push_message(state, Message::ToolResponse(tool_response));
        },
    }
}

fn handle_app(state: &mut AppState, command: &AppCommand)
    ensures
        final(state)@ == app_step(old(state)@, *command),
        final(state).main_tx == old(state).main_tx,
{
    match command {
        AppCommand::Quit => {
            state.mode = Mode::Exiting;
        },
    }
}


/// The state after the events of `events`, handled in order.
pub open spec fn run(s: AppStateView, events: Seq<AppEvent>) -> AppStateView
    decreases events.len(),
{
    if events.len() == 0 {
        s
    } else {
        run(step(s, events[0]), events.drop_first())
    }
}

/// The events that deliver `tokens`, in order.
pub open spec fn token_events(tokens: Seq<String>) -> Seq<AppEvent> {
    tokens.map_values(|t: String| AppEvent::Llm(LlmEvent::TokenReceived(t)))
}

/// The characters of `tokens`, one after the other.
pub open spec fn concat(tokens: Seq<String>) -> Seq<char>
    decreases tokens.len(),
{
    if tokens.len() == 0 {
        Seq::empty()
    } else {
        concat(tokens.drop_last()) + tokens.last()@
    }
}

/// A streamed response: its start, its tokens, and `last`.
pub open spec fn stream_events(tokens: Seq<String>, last: LlmEvent) -> Seq<AppEvent> {
    seq![AppEvent::Llm(LlmEvent::StreamStart)] + token_events(tokens) + seq![AppEvent::Llm(last)]
}

/// Handling `a` then `b` is handling their concatenation.
pub proof fn lemma_run_append(s: AppStateView, a: Seq<AppEvent>, b: Seq<AppEvent>)
    ensures
        run(s, a + b) == run(run(s, a), b),
    decreases a.len(),
{
    if a.len() == 0 {
        assert(a + b =~= b);
    } else {
        assert((a + b).drop_first() =~= a.drop_first() + b);
        assert((a + b)[0] == a[0]);
        lemma_run_append(step(s, a[0]), a.drop_first(), b);
    }
}

/// Handling the events of `events` one at a time gives the state after
/// the last.
pub proof fn lemma_run_push(s: AppStateView, events: Seq<AppEvent>, e: AppEvent)
    ensures
        run(s, events.push(e)) == step(run(s, events), e),
{
    lemma_run_append(s, events, seq![e]);
    assert(events + seq![e] =~= events.push(e));
    let t = run(s, events);
    assert(seq![e].drop_first() =~= Seq::<AppEvent>::empty());
    assert(run(t, seq![e]) == run(step(t, e), Seq::<AppEvent>::empty()));
}

/// While a response is being streamed, each token is appended to it and
/// nothing else changes.
pub proof fn lemma_tokens_accumulate(s: AppStateView, partial: Seq<char>, tokens: Seq<String>)
    requires
        s.streaming_response == Some(partial),
    ensures
        run(s, token_events(tokens)) == (AppStateView {
            streaming_response: Some(partial + concat(tokens)),
            ..s
        }),
    decreases tokens.len(),
{
    if tokens.len() == 0 {
        assert(token_events(tokens) =~= Seq::<AppEvent>::empty());
        assert(partial + concat(tokens) =~= partial);
    } else {
        let front = tokens.drop_last();
        lemma_tokens_accumulate(s, partial, front);
        assert(token_events(tokens) =~= token_events(front).push(
            AppEvent::Llm(LlmEvent::TokenReceived(tokens.last())),
        ));
        lemma_run_push(s, token_events(front), AppEvent::Llm(LlmEvent::TokenReceived(tokens.last())));
        assert(partial + concat(front) + tokens.last()@ =~= partial + concat(tokens));
    }
}

/// A stream that starts, delivers its tokens and completes leaves one new
/// message in the history: the agent's message made of all the tokens in
/// order; no response is being streamed afterwards.
pub proof fn lemma_stream_completes(s: AppStateView, tokens: Seq<String>)
    ensures
        run(s, stream_events(tokens, LlmEvent::StreamComplete)) == (AppStateView {
            messages: s.messages.push(MessageView::Agent(concat(tokens))),
            streaming_response: None,
            ..s
        }),
{
    let start = seq![AppEvent::Llm(LlmEvent::StreamStart)];
    let end = seq![AppEvent::Llm(LlmEvent::StreamComplete)];
    lemma_run_append(s, start + token_events(tokens), end);
    lemma_run_append(s, start, token_events(tokens));
    let opened = step(s, AppEvent::Llm(LlmEvent::StreamStart));
    assert(start =~= Seq::<AppEvent>::empty().push(AppEvent::Llm(LlmEvent::StreamStart)));
    lemma_run_push(s, Seq::empty(), AppEvent::Llm(LlmEvent::StreamStart));
    lemma_tokens_accumulate(opened, Seq::empty(), tokens);
    assert(Seq::<char>::empty() + concat(tokens) =~= concat(tokens));
    let filled = run(opened, token_events(tokens));
    assert(end =~= Seq::<AppEvent>::empty().push(AppEvent::Llm(LlmEvent::StreamComplete)));
    lemma_run_push(filled, Seq::empty(), AppEvent::Llm(LlmEvent::StreamComplete));
}

/// A stream that starts, delivers its tokens and fails leaves one new
/// message in the history, the error; the tokens received are dropped and
/// no response is being streamed afterwards.
pub proof fn lemma_stream_fails(s: AppStateView, tokens: Seq<String>, error: String)
    ensures
        run(s, stream_events(tokens, LlmEvent::StreamError(error))) == (AppStateView {
            messages: s.messages.push(MessageView::Agent(error_prefix() + error@)),
            streaming_response: None,
            ..s
        }),
{
    let start = seq![AppEvent::Llm(LlmEvent::StreamStart)];
    let end = seq![AppEvent::Llm(LlmEvent::StreamError(error))];
    lemma_run_append(s, start + token_events(tokens), end);
    lemma_run_append(s, start, token_events(tokens));
    let opened = step(s, AppEvent::Llm(LlmEvent::StreamStart));
    assert(start =~= Seq::<AppEvent>::empty().push(AppEvent::Llm(LlmEvent::StreamStart)));
    lemma_run_push(s, Seq::empty(), AppEvent::Llm(LlmEvent::StreamStart));
    lemma_tokens_accumulate(opened, Seq::empty(), tokens);
    let filled = run(opened, token_events(tokens));
    assert(end =~= Seq::<AppEvent>::empty().push(AppEvent::Llm(LlmEvent::StreamError(error))));
    lemma_run_push(filled, Seq::empty(), AppEvent::Llm(LlmEvent::StreamError(error)));
}

/// The history only grows: whatever events are handled, the messages that
/// were there stay, in order, and each event adds at most one.
pub proof fn lemma_history_grows(s: AppStateView, events: Seq<AppEvent>)
    ensures
        s.messages.len() <= run(s, events).messages.len() <= s.messages.len() + events.len(),
        run(s, events).messages.subrange(0, s.messages.len() as int) == s.messages,
    decreases events.len(),
{
    if events.len() > 0 {
        let next = step(s, events[0]);
        assert(next.messages.len() <= s.messages.len() + 1);
        assert(next.messages.subrange(0, s.messages.len() as int) =~= s.messages);
        lemma_history_grows(next, events.drop_first());
        let after = run(s, events);
        assert(after.messages.subrange(0, s.messages.len() as int) =~= next.messages.subrange(
            0,
            s.messages.len() as int,
        ));
    } else {
        assert(s.messages.subrange(0, s.messages.len() as int) =~= s.messages);
    }
}

/// Once the application is exiting, it stays so whatever events follow.
pub proof fn lemma_exiting_stays(s: AppStateView, events: Seq<AppEvent>)
    requires
        s.mode == Mode::Exiting,
    ensures
        run(s, events).mode == Mode::Exiting,
    decreases events.len(),
{
    if events.len() > 0 {
        lemma_exiting_stays(step(s, events[0]), events.drop_first());
    }
}

/// A quit command anywhere in a sequence of events leaves the application
/// exiting.
pub proof fn lemma_quit_exits(s: AppStateView, events: Seq<AppEvent>, i: int)
    requires
        0 <= i < events.len(),
        events[i] == AppEvent::App(AppCommand::Quit),
    ensures
        run(s, events).mode == Mode::Exiting,
{
    let before = events.subrange(0, i);
    let after = events.subrange(i, events.len() as int);
    assert(events =~= before + after);
    lemma_run_append(s, before, after);
    let t = run(s, before);
    assert(after[0] == AppEvent::App(AppCommand::Quit));
    lemma_exiting_stays(step(t, after[0]), after.drop_first());
}

/// No event changes the contents of the input bar.
pub proof fn lemma_input_buffer_kept(s: AppStateView, events: Seq<AppEvent>)
    ensures
        run(s, events).user_input_buffer == s.user_input_buffer,
    decreases events.len(),
{
    if events.len() > 0 {
        lemma_input_buffer_kept(step(s, events[0]), events.drop_first());
    }
}

/// An event from the model worker never changes the mode or the input bar,
/// and only appends to the history: at most one message, the earlier ones
/// kept in order.
pub proof fn lemma_model_events_only_append(s: AppStateView, event: LlmEvent)
    ensures
        llm_step(s, event).mode == s.mode,
        llm_step(s, event).user_input_buffer == s.user_input_buffer,
        s.messages.len() <= llm_step(s, event).messages.len() <= s.messages.len() + 1,
        llm_step(s, event).messages.subrange(0, s.messages.len() as int) == s.messages,
{
    assert(llm_step(s, event).messages.subrange(0, s.messages.len() as int) =~= s.messages);
}

/// Enter submits exactly the text of the input bar, and only when it
/// holds text; it does not change the state. No other terminal event, and
/// no event from the model worker or command, submits anything.
pub proof fn lemma_submit(s: AppStateView, event: AppEvent)
    ensures
        (event matches AppEvent::Input(InputEvent::Key(key)) && key.code == KeyCode::Enter)
            ==> step(s, event) == s && submitted(s, event) == if s.user_input_buffer.len() > 0 {
            Some(s.user_input_buffer)
        } else {
            None
        },
        !(event matches AppEvent::Input(InputEvent::Key(key)) && key.code == KeyCode::Enter)
            ==> submitted(s, event).is_none(),
{
}

/// A tool response from the model worker is recorded as received: the
/// history gains exactly one message at its end, the response with its id,
/// its tool's name and its content, and nothing else changes.
pub proof fn lemma_tool_response_recorded(s: AppStateView, response: ToolResponse)
    ensures
        step(s, AppEvent::Llm(LlmEvent::ToolResponseReady(response))).messages.len()
            == s.messages.len() + 1,
        step(s, AppEvent::Llm(LlmEvent::ToolResponseReady(response))).messages.last()
            == MessageView::ToolResponse(response@),
        step(s, AppEvent::Llm(LlmEvent::ToolResponseReady(response))).messages.last()
            matches MessageView::ToolResponse(r) && r.tool_call_id == response.tool_call_id@
            && r.tool_name == response.tool_name@ && r.content == response.content@,
        step(s, AppEvent::Llm(LlmEvent::ToolResponseReady(response))).messages.drop_last()
            == s.messages,
        step(s, AppEvent::Llm(LlmEvent::ToolResponseReady(response))).streaming_response
            == s.streaming_response,
        step(s, AppEvent::Llm(LlmEvent::ToolResponseReady(response))).mode == s.mode,
        step(s, AppEvent::Llm(LlmEvent::ToolResponseReady(response))).user_input_buffer
            == s.user_input_buffer,
{
    let t = step(s, AppEvent::Llm(LlmEvent::ToolResponseReady(response)));
    assert(t.messages.drop_last() =~= s.messages);
}

/// A tool call from the model worker is recorded as received: the history
/// gains exactly one message at its end, the call with its id, its name and
/// its input, and nothing else changes.
pub proof fn lemma_tool_call_recorded(s: AppStateView, call: ToolCall)
    ensures
        step(s, AppEvent::Llm(LlmEvent::ToolCallRequested(call))).messages.len()
            == s.messages.len() + 1,
        step(s, AppEvent::Llm(LlmEvent::ToolCallRequested(call))).messages.last()
            matches MessageView::ToolCall(c) && c.call_id == call.call_id@ && c.name
            == call.name@ && c.input == call.input@,
        step(s, AppEvent::Llm(LlmEvent::ToolCallRequested(call))).messages.drop_last()
            == s.messages,
        step(s, AppEvent::Llm(LlmEvent::ToolCallRequested(call))).streaming_response
            == s.streaming_response,
        step(s, AppEvent::Llm(LlmEvent::ToolCallRequested(call))).mode == s.mode,
        step(s, AppEvent::Llm(LlmEvent::ToolCallRequested(call))).user_input_buffer
            == s.user_input_buffer,
{
    let t = step(s, AppEvent::Llm(LlmEvent::ToolCallRequested(call)));
    assert(t.messages.drop_last() =~= s.messages);
}

/// Tokens stream into the open response: while a response is open, a token
/// is appended to it and the history is untouched; with no open response, a
/// token changes nothing.
pub proof fn lemma_token_appended(s: AppStateView, token: String)
    ensures
        s.streaming_response matches Some(partial) ==> step(
            s,
            AppEvent::Llm(LlmEvent::TokenReceived(token)),
        ).streaming_response == Some(partial + token@),
        step(s, AppEvent::Llm(LlmEvent::TokenReceived(token))).messages == s.messages,
        step(s, AppEvent::Llm(LlmEvent::TokenReceived(token))).mode == s.mode,
        s.streaming_response.is_none() ==> step(s, AppEvent::Llm(LlmEvent::TokenReceived(token)))
            == s,
{
}

/// Only Ctrl+C and `q` stop the application, and a key press changes
/// nothing else: a quit key sets the mode to exiting and leaves the rest of
/// the state as it was; any other key (Enter included) leaves the whole
/// state as it was. A resize changes nothing either.
pub proof fn lemma_keys(s: AppStateView, key: KeyEvent, columns: u16, rows: u16)
    ensures
        ((key.modifiers.bits & CONTROL == CONTROL && key.code == KeyCode::Char('c')) || key.code
            == KeyCode::Char('q')) ==> step(s, AppEvent::Input(InputEvent::Key(key))) == (
        AppStateView { mode: Mode::Exiting, ..s }),
        !((key.modifiers.bits & CONTROL == CONTROL && key.code == KeyCode::Char('c')) || key.code
            == KeyCode::Char('q')) ==> step(s, AppEvent::Input(InputEvent::Key(key))) == s,
        step(s, AppEvent::Input(InputEvent::Resize(columns, rows))) == s,
{
}

/// The stream lifecycle, one event at a time: a start opens an empty
/// response and leaves the history alone; a completion moves the open
/// response, as it is, into the history as the agent's message and closes
/// it (with no open response it changes nothing); an error closes any open
/// response and records `Error: ` followed by the error's text.
pub proof fn lemma_stream_events(s: AppStateView, error: String)
    ensures
        step(s, AppEvent::Llm(LlmEvent::StreamStart)).streaming_response == Some(
            Seq::<char>::empty(),
        ),
        step(s, AppEvent::Llm(LlmEvent::StreamStart)).messages == s.messages,
        s.streaming_response matches Some(partial) ==> step(
            s,
            AppEvent::Llm(LlmEvent::StreamComplete),
        ).messages == s.messages.push(MessageView::Agent(partial)),
        s.streaming_response.is_some() ==> step(
            s,
            AppEvent::Llm(LlmEvent::StreamComplete),
        ).streaming_response.is_none(),
        s.streaming_response.is_none() ==> step(s, AppEvent::Llm(LlmEvent::StreamComplete)) == s,
        step(s, AppEvent::Llm(LlmEvent::StreamError(error))).messages == s.messages.push(
            MessageView::Agent("Error: "@ + error@),
        ),
        step(s, AppEvent::Llm(LlmEvent::StreamError(error))).streaming_response.is_none(),
{
    reveal_strlit("Error: ");
    assert("Error: "@ =~= error_prefix());
}

} // verus!

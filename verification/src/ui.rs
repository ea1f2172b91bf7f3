use vstd::prelude::*;
use vstd::utf8::encode_utf8;

use crate::events::{
    concat, lemma_stream_completes, run, step, stream_events, AppEvent, LlmEvent,
};
use crate::state::{AppState, AppStateView, Message, MessageView};

verus! {

/// A rectangle of terminal cells: its top-left corner and its size.
#[derive(Clone, Copy, Debug, PartialEq, Eq, Structural)]
pub struct Rect {
    pub x: u16,
    pub y: u16,
    pub width: u16,
    pub height: u16,
}

/// The two parts of the screen that ratatui's layout gives for `area`: the
/// messages (at least one row) above the input bar (three rows).
pub uninterp spec fn screen_split(area: Rect) -> (Rect, Rect);

/// The screen of an area with at least four rows: the messages above, the
/// input bar on the last three rows.
pub open spec fn layout_for_tall(area: Rect) -> (Rect, Rect) {
    (
        Rect { x: area.x, y: area.y, width: area.width, height: (area.height - 3) as u16 },
        Rect { x: area.x, y: (area.y + area.height - 3) as u16, width: area.width, height: 3 },
    )
}

/// `Layout::split` of ratatui, vertical, with the constraints `Min(1)` then
/// `Length(3)`. Claimed: the result is `screen_split(area)`; both parts
/// span the columns of `area` (a vertical split keeps `x` and `width`), and
/// both lie within its rows (the solver keeps every boundary between the
/// area's top and bottom); when the area has at least four rows, the input
/// bar is its last three rows and the messages take the rest.
#[verifier::external_body]
fn split_screen(area: Rect) -> (parts: (Rect, Rect))
    requires
        area.x + area.width <= u16::MAX,
        area.y + area.height <= u16::MAX,
    ensures
        parts == screen_split(area),
        parts.0.x == area.x && parts.0.width == area.width,
        parts.1.x == area.x && parts.1.width == area.width,
        area.y <= parts.0.y && parts.0.y + parts.0.height <= area.y + area.height,
        area.y <= parts.1.y && parts.1.y + parts.1.height <= area.y + area.height,
        area.height >= 4 ==> parts == layout_for_tall(area),
{
    let chunks = ratatui::layout::Layout::vertical(
        [ratatui::layout::Constraint::Min(1), ratatui::layout::Constraint::Length(3)],
    ).split(ratatui::layout::Rect::new(area.x, area.y, area.width, area.height));
    let (top, bottom) = (chunks[0], chunks[1]);
    (
        Rect { x: top.x, y: top.y, width: top.width, height: top.height },
        Rect { x: bottom.x, y: bottom.y, width: bottom.width, height: bottom.height },
    )
}

/// The line that shows a message.
pub open spec fn message_line(m: MessageView) -> Seq<char> {
    match m {
        MessageView::User(text) => "You: "@ + text,
        MessageView::Agent(text) => "Agent: "@ + text,
        MessageView::ToolCall(call) => "🔧 Tool call: "@ + call.name,
        MessageView::ToolResponse(response) => "📎 Tool response: "@ + response.tool_name,
    }
}

/// The lines of the messages pane: one per message, then the response
/// being streamed, if any.
pub open spec fn screen_lines(s: AppStateView) -> Seq<Seq<char>> {
    s.messages.map_values(|m: MessageView| message_line(m)) + match s.streaming_response {
        Some(partial) => seq!["Agent: "@ + partial],
        None => Seq::empty(),
    }
}

/// `lines` joined by line feeds.
pub open spec fn join_lines(lines: Seq<Seq<char>>) -> Seq<char>
    decreases lines.len(),
{
    if lines.len() == 0 {
        Seq::empty()
    } else if lines.len() == 1 {
        lines[0]
    } else {
        join_lines(lines.drop_last()) + seq!['\n'] + lines.last()
    }
}

/// `prefix` followed by `text`.
fn prefixed(prefix: &str, text: &str) -> (out: String)
    ensures
        out@ == prefix@ + text@,
{
    let mut out = String::from_str(prefix);
    out.append(text);
    out
}

/// The line that shows `message`.
fn message_line_text(message: &Message) -> (line: String)
    ensures
        line@ == message_line(message@),
{
    match message {
        Message::User(text) => prefixed("You: ", text.as_str()),
        Message::Agent(text) => prefixed("Agent: ", text.as_str()),
        Message::ToolCall(call) => prefixed("🔧 Tool call: ", call.name.as_str()),
        Message::ToolResponse(response) => prefixed(
            "📎 Tool response: ",
            response.tool_name.as_str(),
        ),
    }
}

/// The lines of the messages pane.
pub fn message_lines(state: &AppState) -> (lines: Vec<String>)
    ensures
        lines@.map_values(|l: String| l@) == screen_lines(state@),
{
    let mut lines: Vec<String> = Vec::new();
    let ghost shown = state@.messages.map_values(|m: MessageView| message_line(m));
    let mut i: usize = 0;
    while i < state.messages.len()
        invariant
            i <= state.messages@.len(),
            shown == state@.messages.map_values(|m: MessageView| message_line(m)),
            lines@.map_values(|l: String| l@) == shown.subrange(0, i as int),
        decreases state.messages@.len() - i,
    {
        let line = message_line_text(&state.messages[i]);
        let ghost before = lines@;
        lines.push(line);
        assert(lines@.map_values(|l: String| l@) =~= before.map_values(|l: String| l@).push(
            line@,
        ));
        assert(shown.subrange(0, i + 1) =~= shown.subrange(0, i as int).push(shown[i as int]));
        i += 1;
    }
    assert(shown.subrange(0, state.messages@.len() as int) =~= shown);
    match &state.streaming_response {
        Some(partial) => {
            let line = prefixed("Agent: ", partial.as_str());
            let ghost before = lines@;
            lines.push(line);
            assert(lines@.map_values(|l: String| l@) =~= before.map_values(|l: String| l@).push(
                line@,
            ));
            assert(screen_lines(state@) =~= shown.push("Agent: "@ + partial@));
        },
        None => {
            assert(screen_lines(state@) =~= shown);
        },
    }
    lines
}

/// `lines` joined by line feeds.
pub fn join_with_newlines(lines: &Vec<String>) -> (out: String)
    ensures
        out@ == join_lines(lines@.map_values(|l: String| l@)),
{
    let ghost all = lines@.map_values(|l: String| l@);
    let mut out = String::new();
    let mut i: usize = 0;
    while i < lines.len()
        invariant
            i <= lines@.len(),
            all == lines@.map_values(|l: String| l@),
            out@ == join_lines(all.subrange(0, i as int)),
        decreases lines@.len() - i,
    {
        proof {
            reveal_strlit("\n");
        }
        if i > 0 {
            out.append("\n");
        }
        out.append(lines[i].as_str());
        proof {
            let prefix = all.subrange(0, i + 1);
            assert(prefix.drop_last() =~= all.subrange(0, i as int));
            assert(prefix.last() == lines@[i as int]@);
            if i == 0 {
                assert(join_lines(all.subrange(0, 0)) =~= Seq::<char>::empty());
                assert(join_lines(prefix) == prefix[0]);
            } else {
                assert(join_lines(prefix) == join_lines(prefix.drop_last()) + seq!['\n']
                    + prefix.last());
            }
        }
        i += 1;
    }
    assert(all.subrange(0, lines@.len() as int) =~= all);
    out
}

/// The number of bytes of the UTF-8 encoding of `s` (what `str::len`
/// gives).
pub open spec fn byte_len(s: Seq<char>) -> usize {
    encode_utf8(s).len() as usize
}

/// The cursor in the input bar `area` holding `len` bytes of input: the
/// column after the input or the last column inside the border, whichever
/// is further right; the row inside the top border.
pub open spec fn cursor_position(area: Rect, len: usize) -> (u16, u16) {
    let after_input = area.x + 1 + (#[verifier::truncate] (len as u16));
    let last_inside = area.x + if area.width >= 2 {
        area.width - 2
    } else {
        0
    };
    (
        (if after_input >= last_inside {
            after_input
        } else {
            last_inside
        }) as u16,
        (area.y + 1) as u16,
    )
}

/// The cursor position in the input bar `area` for `input_len` bytes of
/// input.
pub fn input_bar_cursor(area: Rect, input_len: usize) -> (cursor: (u16, u16))
    requires
        area.x + (if area.width >= 2 {
            area.width - 2
        } else {
            0
        }) <= u16::MAX,
        area.x + 1 + (#[verifier::truncate] (input_len as u16)) <= u16::MAX,
        area.y + 1 <= u16::MAX,
    ensures
        cursor == cursor_position(area, input_len),
{
    let max_x = area.x + area.width.saturating_sub(2);
    let after_input = area.x + 1 + #[verifier::truncate] (input_len as u16);
    let cursor_x = if after_input >= max_x {
        after_input
    } else {
        max_x
    };
    (cursor_x, area.y + 1)
}

/// What the screen shows: the messages pane and its text, the input bar and
/// its text, and where the cursor stands.
#[derive(Debug)]
pub struct Screen {
    pub messages_area: Rect,
    pub messages_text: String,
    pub input_area: Rect,
    pub input_text: String,
    pub cursor: (u16, u16),
}

/// The screen that shows `state` in `area`, when the input bar does not
/// start on the last row (its cursor row is the row below its top).
pub fn render_in(area: Rect, state: &AppState) -> (screen: Screen)
    requires
        area.x + area.width <= u16::MAX,
        area.y + area.height <= u16::MAX,
        area.x + 1 + (#[verifier::truncate] (byte_len(state.user_input_buffer@) as u16))
            <= u16::MAX,
        screen_split(area).1.y < u16::MAX,
    ensures
        (screen.messages_area, screen.input_area) == screen_split(area),
        area.height >= 4 ==> (screen.messages_area, screen.input_area) == layout_for_tall(area),
        screen.messages_text@ == join_lines(screen_lines(state@)),
        screen.input_text@ == state.user_input_buffer@,
        screen.cursor == cursor_position(screen.input_area, byte_len(state.user_input_buffer@)),
{
    let (messages_area, input_area) = split_screen(area);
    let lines = message_lines(state);
    let messages_text = join_with_newlines(&lines);
    let input_text = state.user_input_buffer.clone();
    let cursor = input_bar_cursor(input_area, state.user_input_buffer.as_str().len());
    Screen { messages_area, messages_text, input_area, input_text, cursor }
}

/// The screen that shows `state` in `area`; `None` when the input bar
/// starts on the last row, where the row of its cursor does not exist.
pub fn render(area: Rect, state: &AppState) -> (screen: Option<Screen>)
    requires
        area.x + area.width <= u16::MAX,
        area.y + area.height <= u16::MAX,
        area.x + 1 + (#[verifier::truncate] (byte_len(state.user_input_buffer@) as u16))
            <= u16::MAX,
    ensures
        screen_split(area).1.y == u16::MAX <==> screen.is_none(),
        area.height >= 4 ==> screen.is_some(),
        screen matches Some(screen) ==> {
            &&& (screen.messages_area, screen.input_area) == screen_split(area)
            &&& area.height >= 4 ==> (screen.messages_area, screen.input_area) == layout_for_tall(
                area,
            )
            &&& screen.messages_text@ == join_lines(screen_lines(state@))
            &&& screen.input_text@ == state.user_input_buffer@
            &&& screen.cursor == cursor_position(
                screen.input_area,
                byte_len(state.user_input_buffer@),
            )
        },
{
    let (_, input_area) = split_screen(area);
    if input_area.y == u16::MAX {
        None
    } else {
        Some(render_in(area, state))
    }
}

/// The messages pane shows one line per message, in order, then one for the
/// response being streamed: a user's message after `You: `, an agent's
/// message and the streamed response after `Agent: `, a tool call by its
/// name after `🔧 Tool call: `, a tool response by its tool's name after
/// `📎 Tool response: `.
pub proof fn lemma_screen_lines(s: AppStateView)
    ensures
        screen_lines(s).len() == s.messages.len() + if s.streaming_response.is_some() {
            1int
        } else {
            0int
        },
        forall|i: int|
            0 <= i < s.messages.len() ==> match #[trigger] s.messages[i] {
                MessageView::User(t) => screen_lines(s)[i] == "You: "@ + t,
                MessageView::Agent(t) => screen_lines(s)[i] == "Agent: "@ + t,
                MessageView::ToolCall(c) => screen_lines(s)[i] == "🔧 Tool call: "@ + c.name,
                MessageView::ToolResponse(r) => screen_lines(s)[i] == "📎 Tool response: "@
                    + r.tool_name,
            },
        s.streaming_response matches Some(p) ==> screen_lines(s).last() == "Agent: "@ + p,
{
    assert forall|i: int| 0 <= i < s.messages.len() implies screen_lines(s)[i] == message_line(
        #[trigger] s.messages[i],
    ) by {}
}

/// Completing a stream does not change what the messages pane shows: the
/// response shown while it streamed becomes the agent's message, on the
/// same line.
pub proof fn lemma_completion_keeps_screen(s: AppStateView)
    requires
        s.streaming_response.is_some(),
    ensures
        screen_lines(step(s, AppEvent::Llm(LlmEvent::StreamComplete))) == screen_lines(s),
{
    let t = step(s, AppEvent::Llm(LlmEvent::StreamComplete));
    let partial = s.streaming_response.unwrap();
    assert(t.messages == s.messages.push(MessageView::Agent(partial)));
    assert(t.messages.map_values(|m: MessageView| message_line(m)) =~= s.messages.map_values(
        |m: MessageView| message_line(m),
    ).push("Agent: "@ + partial));
    assert(screen_lines(t) =~= screen_lines(s));
}

/// After a stream of tokens completes, the last line of the messages pane
/// shows the agent's message made of all the tokens.
pub proof fn lemma_completed_stream_shown_last(s: AppStateView, tokens: Seq<String>)
    ensures
        screen_lines(run(s, stream_events(tokens, LlmEvent::StreamComplete))).last() == "Agent: "@
            + concat(tokens),
{
    lemma_stream_completes(s, tokens);
    let t = run(s, stream_events(tokens, LlmEvent::StreamComplete));
    assert(screen_lines(t) =~= s.messages.map_values(|m: MessageView| message_line(m)).push(
        "Agent: "@ + concat(tokens),
    ));
}

} // verus!

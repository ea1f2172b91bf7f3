use vstd::prelude::*;

use crate::json::{str_field, JsonValue};
use crate::state::{ToolCall, ToolResponse};
use vstd::utf8::{decode_utf8, valid_utf8};

verus! {

/// What a tool call asks of the outside world, or the answer when it asks
/// nothing.
#[derive(Debug)]
pub enum ToolPlan {
    /// Read the file at `file_path` into a string.
    ReadFile { file_path: String },
    /// Write `content` to the file at `file_path`.
    WriteFile { file_path: String, content: String },
    /// Run `command` with `bash -c`.
    RunCommand { command: String },
    /// Nothing to run: this text is the answer.
    Answer(String),
}

/// A tool plan with its texts as sequences of characters.
pub enum ToolPlanView {
    ReadFile(Seq<char>),
    WriteFile(Seq<char>, Seq<char>),
    RunCommand(Seq<char>),
    Answer(Seq<char>),
}

impl View for ToolPlan {
    type V = ToolPlanView;

    open spec fn view(&self) -> ToolPlanView {
        match self {
            ToolPlan::ReadFile { file_path } => ToolPlanView::ReadFile(file_path@),
            ToolPlan::WriteFile { file_path, content } => ToolPlanView::WriteFile(
                file_path@,
                content@,
            ),
            ToolPlan::RunCommand { command } => ToolPlanView::RunCommand(command@),
            ToolPlan::Answer(text) => ToolPlanView::Answer(text@),
        }
    }
}

/// What running a command printed.
#[derive(Debug)]
pub struct CommandOutput {
    pub stdout: Vec<u8>,
    pub stderr: Vec<u8>,
}

/// The answer of a tool call that could not be carried out.
pub open spec fn failure(reason: Seq<char>) -> Seq<char> {
    "Tool call failed: "@ + reason
}

/// Why a tool call that lacks the argument `key` cannot be carried out.
pub open spec fn missing_argument(key: Seq<char>) -> Seq<char> {
    "Should have a `"@ + key + "` argument."@
}

/// The answer to a call of a tool that does not exist.
pub open spec fn unknown_tool(name: Seq<char>) -> Seq<char> {
    "Unknown tool: "@ + name
}

/// The answer of a file written to `file_path`.
pub open spec fn written(file_path: Seq<char>) -> Seq<char> {
    "File written to "@ + file_path + " successfully"@
}

/// What a tool call asks for: `Read` needs `file_path`, `Write` needs
/// `file_path` then `content`, `Bash` needs `command`, each a string member
/// of the call's input; a missing argument or an unknown tool is answered
/// at once.
pub open spec fn planned(call: ToolCall) -> ToolPlanView {
    let path = str_field(call.input@, "file_path"@);
    if call.name@ == "Read"@ {
        match path {
            Some(p) => ToolPlanView::ReadFile(p),
            None => ToolPlanView::Answer(failure(missing_argument("file_path"@))),
        }
    } else if call.name@ == "Write"@ {
        match (path, str_field(call.input@, "content"@)) {
            (None, _) => ToolPlanView::Answer(failure(missing_argument("file_path"@))),
            (Some(_), None) => ToolPlanView::Answer(failure(missing_argument("content"@))),
            (Some(p), Some(c)) => ToolPlanView::WriteFile(p, c),
        }
    } else if call.name@ == "Bash"@ {
        match str_field(call.input@, "command"@) {
            Some(c) => ToolPlanView::RunCommand(c),
            None => ToolPlanView::Answer(failure(missing_argument("command"@))),
        }
    } else {
        ToolPlanView::Answer(unknown_tool(call.name@))
    }
}

/// How a tool call is dispatched, by its name and the string members of
/// its input alone: `Read` with a `file_path` reads that file; `Write` with
/// a `file_path` and a `content` writes exactly that content (whatever it
/// is, empty included) to that file; `Bash` with a `command` runs it; a
/// missing argument is answered with its failure, `file_path` checked
/// before `content`; any other name is answered as unknown.
pub proof fn lemma_dispatch(call: ToolCall)
    ensures
        call.name@ == "Read"@ ==> match str_field(call.input@, "file_path"@) {
            Some(p) => planned(call) == ToolPlanView::ReadFile(p),
            None => planned(call) == ToolPlanView::Answer(
                "Tool call failed: "@ + ("Should have a `"@ + "file_path"@ + "` argument."@),
            ),
        },
        call.name@ == "Write"@ ==> match (
            str_field(call.input@, "file_path"@),
            str_field(call.input@, "content"@),
        ) {
            (Some(p), Some(c)) => planned(call) == ToolPlanView::WriteFile(p, c),
            (None, _) => planned(call) == ToolPlanView::Answer(
                "Tool call failed: "@ + ("Should have a `"@ + "file_path"@ + "` argument."@),
            ),
            (Some(_), None) => planned(call) == ToolPlanView::Answer(
                "Tool call failed: "@ + ("Should have a `"@ + "content"@ + "` argument."@),
            ),
        },
        call.name@ == "Bash"@ ==> match str_field(call.input@, "command"@) {
            Some(c) => planned(call) == ToolPlanView::RunCommand(c),
            None => planned(call) == ToolPlanView::Answer(
                "Tool call failed: "@ + ("Should have a `"@ + "command"@ + "` argument."@),
            ),
        },
        (call.name@ != "Read"@ && call.name@ != "Write"@ && call.name@ != "Bash"@) ==> planned(
            call,
        ) == ToolPlanView::Answer("Unknown tool: "@ + call.name@),
{
    reveal_strlit("Read");
    reveal_strlit("Write");
    reveal_strlit("Bash");
    assert("Read"@ != "Write"@ && "Read"@ != "Bash"@ && "Write"@ != "Bash"@) by {
        assert("Read"@.len() != "Write"@.len());
        assert("Read"@.len() != "Bash"@.len() || "Read"@[0] != "Bash"@[0]);
        assert("Write"@.len() != "Bash"@.len());
    }
    assert("Tool call failed: "@ + ("Should have a `"@ + "file_path"@ + "` argument."@) == failure(
        missing_argument("file_path"@),
    ));
}

/// Whether two texts are the same.
fn same_text(a: &str, b: &str) -> (r: bool)
    ensures
        r == (a@ == b@),
{
    a.to_owned() == b.to_owned()
}

/// The failure answer for `reason`.
fn failure_text(reason: &str) -> (out: String)
    ensures
        out@ == failure(reason@),
{
    let mut out = String::from_str("Tool call failed: ");
    out.append(reason);
    out
}

/// The failure answer for a missing argument `key`.
fn missing_argument_text(key: &str) -> (out: String)
    ensures
        out@ == failure(missing_argument(key@)),
{
    let mut reason = String::from_str("Should have a `");
    reason.append(key);
    reason.append("` argument.");
    let out = failure_text(reason.as_str());
    assert(reason@ =~= missing_argument(key@));
    out
}

/// Decides what carrying out `call` takes.
pub fn plan_tool_call(call: &ToolCall) -> (plan: ToolPlan)
    ensures
        plan@ == planned(*call),
{
    if same_text(call.name.as_str(), "Read") {
        match call.input.get_str("file_path") {
            Some(p) => ToolPlan::ReadFile { file_path: String::from_str(p) },
            None => ToolPlan::Answer(missing_argument_text("file_path")),
        }
    } else if same_text(call.name.as_str(), "Write") {
        match call.input.get_str("file_path") {
            None => ToolPlan::Answer(missing_argument_text("file_path")),
            Some(p) => match call.input.get_str("content") {
                None => ToolPlan::Answer(missing_argument_text("content")),
                Some(c) => ToolPlan::WriteFile {
                    file_path: String::from_str(p),
                    content: String::from_str(c),
                },
            },
        }
    } else if same_text(call.name.as_str(), "Bash") {
        match call.input.get_str("command") {
            Some(c) => ToolPlan::RunCommand { command: String::from_str(c) },
            None => ToolPlan::Answer(missing_argument_text("command")),
        }
    } else {
        let mut text = String::from_str("Unknown tool: ");
        text.append(call.name.as_str());
        ToolPlan::Answer(text)
    }
}

/// The answer of a file read: its contents, or why it could not be read.
pub fn read_file_answer(result: Result<String, String>) -> (out: String)
    ensures
        out@ == match result {
            Ok(contents) => contents@,
            Err(error) => failure(error@),
        },
{
    match result {
        Ok(contents) => contents,
        Err(error) => failure_text(error.as_str()),
    }
}

/// The answer of a file write to `file_path`.
pub fn write_file_answer(file_path: &str, result: Result<(), String>) -> (out: String)
    ensures
        out@ == match result {
            Ok(_) => written(file_path@),
            Err(error) => failure(error@),
        },
{
    match result {
        Ok(()) => {
            let mut out = String::from_str("File written to ");
            out.append(file_path);
            out.append(" successfully");
            out
        },
        Err(error) => failure_text(error.as_str()),
    }
}

/// Whether `b` is ASCII whitespace: space, tab, line feed, form feed or
/// carriage return.
pub open spec fn is_ascii_space(b: u8) -> bool {
    b == 0x20 || b == 0x09 || b == 0x0a || b == 0x0c || b == 0x0d
}

/// `s` without its leading ASCII whitespace.
pub open spec fn trim_start(s: Seq<u8>) -> Seq<u8>
    decreases s.len(),
{
    if s.len() > 0 && is_ascii_space(s[0]) {
        trim_start(s.drop_first())
    } else {
        s
    }
}

/// `s` without its trailing ASCII whitespace.
pub open spec fn trim_end(s: Seq<u8>) -> Seq<u8>
    decreases s.len(),
{
    if s.len() > 0 && is_ascii_space(s.last()) {
        trim_end(s.drop_last())
    } else {
        s
    }
}

/// `s` without its leading and trailing ASCII whitespace.
pub open spec fn trimmed(s: Seq<u8>) -> Seq<u8> {
    trim_end(trim_start(s))
}

/// Trimming the start drops exactly the leading whitespace.
proof fn lemma_trim_start_shape(s: Seq<u8>) -> (i: int)
    ensures
        0 <= i <= s.len(),
        trim_start(s) == s.subrange(i, s.len() as int),
        forall|k: int| 0 <= k < i ==> is_ascii_space(#[trigger] s[k]),
        i < s.len() ==> !is_ascii_space(s[i]),
    decreases s.len(),
{
    if s.len() > 0 && is_ascii_space(s[0]) {
        let rest = s.drop_first();
        let j = lemma_trim_start_shape(rest);
        assert(rest.subrange(j, rest.len() as int) =~= s.subrange(j + 1, s.len() as int));
        assert forall|k: int| 0 <= k < j + 1 implies is_ascii_space(#[trigger] s[k]) by {
            if k > 0 {
                assert(s[k] == rest[k - 1]);
            }
        }
        if j + 1 < s.len() {
            assert(s[j + 1] == rest[j]);
        }
        j + 1
    } else {
        assert(s.subrange(0, s.len() as int) =~= s);
        0
    }
}

/// Trimming the end drops exactly the trailing whitespace.
proof fn lemma_trim_end_shape(s: Seq<u8>) -> (j: int)
    ensures
        0 <= j <= s.len(),
        trim_end(s) == s.subrange(0, j),
        forall|k: int| j <= k < s.len() ==> is_ascii_space(#[trigger] s[k]),
        j > 0 ==> !is_ascii_space(s[j - 1]),
    decreases s.len(),
{
    if s.len() > 0 && is_ascii_space(s.last()) {
        let rest = s.drop_last();
        let j = lemma_trim_end_shape(rest);
        assert(rest.subrange(0, j) =~= s.subrange(0, j));
        assert forall|k: int| j <= k < s.len() implies is_ascii_space(#[trigger] s[k]) by {
            if k < rest.len() {
                assert(s[k] == rest[k]);
            }
        }
        if j > 0 {
            assert(s[j - 1] == rest[j - 1]);
        }
        j
    } else {
        assert(s.subrange(0, s.len() as int) =~= s);
        s.len() as int
    }
}

/// Trimming keeps a contiguous part of the bytes and drops only ASCII
/// whitespace (space, tab, line feed, form feed, carriage return) around
/// it: what is kept neither starts nor ends with such whitespace.
pub proof fn lemma_trimmed_shape(s: Seq<u8>)
    ensures
        forall|b: u8|
            #[trigger] is_ascii_space(b) <==> (b == 0x20 || b == 0x09 || b == 0x0a || b == 0x0c || b
                == 0x0d),
        exists|i: int, j: int|
            #![trigger s.subrange(i, j)]
            0 <= i <= j <= s.len() && trimmed(s) == s.subrange(i, j) && (forall|k: int|
                0 <= k < i ==> is_ascii_space(#[trigger] s[k])) && (forall|k: int|
                j <= k < s.len() ==> is_ascii_space(#[trigger] s[k])),
        trimmed(s).len() > 0 ==> !is_ascii_space(trimmed(s)[0]) && !is_ascii_space(
            trimmed(s).last(),
        ),
{
    let i = lemma_trim_start_shape(s);
    let rest = s.subrange(i, s.len() as int);
    let j = lemma_trim_end_shape(rest);
    assert(rest.subrange(0, j) =~= s.subrange(i, i + j));
    assert forall|k: int| i + j <= k < s.len() implies is_ascii_space(#[trigger] s[k]) by {
        assert(s[k] == rest[k - i]);
    }
    if j > 0 {
        assert(trimmed(s)[0] == s[i]);
        assert(trimmed(s).last() == rest[j - 1]);
        if j > 0 {
            assert(rest[0] == s[i]);
        }
    }
    assert(s.subrange(i, i + j) == trimmed(s));
}

/// Trimming the start of `s` from position `i` on, where every byte before
/// `i` is whitespace.
proof fn lemma_trim_start_from(s: Seq<u8>, i: int)
    requires
        0 <= i <= s.len(),
        forall|k: int| 0 <= k < i ==> is_ascii_space(#[trigger] s[k]),
    ensures
        trim_start(s) == trim_start(s.subrange(i, s.len() as int)),
    decreases i,
{
    if i > 0 {
        assert(s.drop_first().subrange(i - 1, s.drop_first().len() as int) =~= s.subrange(
            i,
            s.len() as int,
        ));
        lemma_trim_start_from(s.drop_first(), i - 1);
    } else {
        assert(s.subrange(0, s.len() as int) =~= s);
    }
}

/// Trimming the end of `s` up to position `j`, where every byte from `j` on
/// is whitespace.
proof fn lemma_trim_end_to(s: Seq<u8>, j: int)
    requires
        0 <= j <= s.len(),
        forall|k: int| j <= k < s.len() ==> is_ascii_space(#[trigger] s[k]),
    ensures
        trim_end(s) == trim_end(s.subrange(0, j)),
    decreases s.len() - j,
{
    if j < s.len() {
        assert(s.drop_last().subrange(0, j) =~= s.subrange(0, j));
        lemma_trim_end_to(s.drop_last(), j);
    } else {
        assert(s.subrange(0, s.len() as int) =~= s);
    }
}

/// `bytes` without its leading and trailing ASCII whitespace.
pub fn trim_ascii(bytes: &[u8]) -> (out: &[u8])
    ensures
        out@ == trimmed(bytes@),
{
    let n = bytes.len();
    let mut start: usize = 0;
    while start < n && is_space_byte(bytes[start])
        invariant
            start <= n,
            n == bytes@.len(),
            forall|k: int| 0 <= k < start ==> is_ascii_space(#[trigger] bytes@[k]),
        decreases n - start,
    {
        start += 1;
    }
    let ghost rest = bytes@.subrange(start as int, n as int);
    proof {
        lemma_trim_start_from(bytes@, start as int);
        if start < n {
            assert(rest[0] == bytes@[start as int]);
        }
    }
    assert(trim_start(bytes@) == rest);
    let mut end: usize = n;
    while end > start && is_space_byte(bytes[end - 1])
        invariant
            start <= end <= n,
            n == bytes@.len(),
            rest == bytes@.subrange(start as int, n as int),
            forall|k: int| end <= k < n ==> is_ascii_space(#[trigger] bytes@[k]),
        decreases end - start,
    {
        end -= 1;
    }
    proof {
        lemma_trim_end_to(rest, end - start);
        let kept = rest.subrange(0, end - start);
        assert(kept =~= bytes@.subrange(start as int, end as int));
        if end > start {
            assert(kept.last() == bytes@[end - 1]);
        }
    }
    &bytes[start..end]
}

/// Whether `b` is ASCII whitespace.
fn is_space_byte(b: u8) -> (r: bool)
    ensures
        r == is_ascii_space(b),
{
    b == 0x20 || b == 0x09 || b == 0x0a || b == 0x0c || b == 0x0d
}

/// The text that `String::from_utf8_lossy` makes of `bytes`.
pub uninterp spec fn utf8_lossy_text(bytes: Seq<u8>) -> Seq<char>;

/// `String::from_utf8_lossy`: `bytes` decoded as UTF-8, with each invalid
/// sequence replaced by U+FFFD. Claimed: the result is
/// `utf8_lossy_text(bytes@)`; valid UTF-8 decodes to its characters (no
/// replacement happens); bytes that are all ASCII decode to the characters
/// with the same codes.
#[verifier::external_body]
fn decode_utf8_lossy(bytes: &[u8]) -> (text: String)
    ensures
        text@ == utf8_lossy_text(bytes@),
        valid_utf8(bytes@) ==> text@ == decode_utf8(bytes@),
        (forall|i: int| 0 <= i < bytes@.len() ==> bytes@[i] < 0x80) ==> text@ == bytes@.map_values(
            |b: u8| b as char,
        ),
{
    String::from_utf8_lossy(bytes).into_owned()
}

/// The report of a finished command: its output and its error output, each
/// trimmed of surrounding ASCII whitespace and decoded.
pub open spec fn command_report(stdout: Seq<u8>, stderr: Seq<u8>) -> Seq<char> {
    "stdout:"@ + utf8_lossy_text(trimmed(stdout)) + "\nstderr:"@ + utf8_lossy_text(
        trimmed(stderr),
    )
}

/// The report of a finished command.
pub fn format_command_output(stdout: &[u8], stderr: &[u8]) -> (out: String)
    ensures
        out@ == command_report(stdout@, stderr@),
{
    let out_text = decode_utf8_lossy(trim_ascii(stdout));
    let err_text = decode_utf8_lossy(trim_ascii(stderr));
    let mut out = String::from_str("stdout:");
    out.append(out_text.as_str());
    out.append("\nstderr:");
    out.append(err_text.as_str());
    out
}

/// The answer of a command run: its report, or why it could not be run.
pub fn command_answer(result: Result<CommandOutput, String>) -> (out: String)
    ensures
        out@ == match result {
            Ok(output) => command_report(output.stdout@, output.stderr@),
            Err(error) => failure(error@),
        },
{
    match result {
        Ok(output) => format_command_output(output.stdout.as_slice(), output.stderr.as_slice()),
        Err(error) => failure_text(error.as_str()),
    }
}

/// The response to `call` whose content is the string `answer`.
pub fn tool_response(call: &ToolCall, answer: String) -> (r: ToolResponse)
    ensures
        r.tool_call_id == call.call_id,
        r.tool_name == call.name,
        r.content == JsonValue::String(answer),
{
    ToolResponse {
        tool_call_id: call.call_id.clone(),
        tool_name: call.name.clone(),
        content: JsonValue::String(answer),
    }
}

} // verus!

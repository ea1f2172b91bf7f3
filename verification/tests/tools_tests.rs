use chris_code::json::JsonValue;
use chris_code::state::ToolCall;
use chris_code::tools::{
    command_answer, format_command_output, plan_tool_call, read_file_answer, tool_response,
    trim_ascii, write_file_answer, CommandOutput, ToolPlan,
};

fn call(name: &str, members: Vec<(&str, &str)>) -> ToolCall {
    ToolCall {
        call_id: "id-1".to_string(),
        name: name.to_string(),
        input: JsonValue::Object(
            members
                .into_iter()
                .map(|(k, v)| (k.to_string(), JsonValue::String(v.to_string())))
                .collect(),
        ),
    }
}

fn answer(plan: ToolPlan) -> String {
    match plan {
        ToolPlan::Answer(text) => text,
        other => panic!("expected an answer, got {:?}", other),
    }
}

#[test]
fn read_plan_takes_the_file_path() {
    match plan_tool_call(&call("Read", vec![("file_path", "/etc/hosts")])) {
        ToolPlan::ReadFile { file_path } => assert_eq!(file_path, "/etc/hosts"),
        other => panic!("unexpected {:?}", other),
    }
}

#[test]
fn read_without_path_fails_at_once() {
    assert_eq!(
        answer(plan_tool_call(&call("Read", vec![]))),
        "Tool call failed: Should have a `file_path` argument."
    );
}

#[test]
fn read_with_string_input_fails_at_once() {
    let c = ToolCall {
        call_id: "x".to_string(),
        name: "Read".to_string(),
        input: JsonValue::String("{\"file_path\":\"a\"}".to_string()),
    };
    assert_eq!(
        answer(plan_tool_call(&c)),
        "Tool call failed: Should have a `file_path` argument."
    );
}

#[test]
fn write_plan_takes_path_and_content() {
    match plan_tool_call(&call("Write", vec![("content", "hi"), ("file_path", "out.txt")])) {
        ToolPlan::WriteFile { file_path, content } => {
            assert_eq!(file_path, "out.txt");
            assert_eq!(content, "hi");
        }
        other => panic!("unexpected {:?}", other),
    }
}

#[test]
fn write_checks_path_before_content() {
    assert_eq!(
        answer(plan_tool_call(&call("Write", vec![]))),
        "Tool call failed: Should have a `file_path` argument."
    );
    assert_eq!(
        answer(plan_tool_call(&call("Write", vec![("file_path", "a")]))),
        "Tool call failed: Should have a `content` argument."
    );
}

#[test]
fn bash_plan_takes_the_command() {
    match plan_tool_call(&call("Bash", vec![("command", "ls -l")])) {
        ToolPlan::RunCommand { command } => assert_eq!(command, "ls -l"),
        other => panic!("unexpected {:?}", other),
    }
    assert_eq!(
        answer(plan_tool_call(&call("Bash", vec![("cmd", "ls")]))),
        "Tool call failed: Should have a `command` argument."
    );
}

#[test]
fn unknown_tool_is_reported() {
    assert_eq!(answer(plan_tool_call(&call("read", vec![]))), "Unknown tool: read");
    assert_eq!(answer(plan_tool_call(&call("", vec![]))), "Unknown tool: ");
}

#[test]
fn file_answers() {
    assert_eq!(read_file_answer(Ok("contents".to_string())), "contents");
    assert_eq!(
        read_file_answer(Err("No such file or directory (os error 2)".to_string())),
        "Tool call failed: No such file or directory (os error 2)"
    );
    assert_eq!(write_file_answer("a.txt", Ok(())), "File written to a.txt successfully");
    assert_eq!(
        write_file_answer("a.txt", Err("Permission denied (os error 13)".to_string())),
        "Tool call failed: Permission denied (os error 13)"
    );
}

#[test]
fn trim_ascii_strips_both_ends() {
    assert_eq!(trim_ascii(b"  \t\nabc d\r\n\x0c"), b"abc d");
    assert_eq!(trim_ascii(b"   "), b"");
    assert_eq!(trim_ascii(b""), b"");
    assert_eq!(trim_ascii(b"\x0bx\x0b"), b"\x0bx\x0b");
}

#[test]
fn command_output_is_trimmed_and_decoded() {
    assert_eq!(format_command_output(b"hello\n", b""), "stdout:hello\nstderr:");
    assert_eq!(
        format_command_output(b"  a b  ", b"\nwarn\n"),
        "stdout:a b\nstderr:warn"
    );
    assert_eq!(format_command_output(b"\xffok", b""), "stdout:\u{fffd}ok\nstderr:");
}

#[test]
fn command_answers() {
    let out = CommandOutput { stdout: b"1\n".to_vec(), stderr: b"2\n".to_vec() };
    assert_eq!(command_answer(Ok(out)), "stdout:1\nstderr:2");
    assert_eq!(
        command_answer(Err("bash not found".to_string())),
        "Tool call failed: bash not found"
    );
}

#[test]
fn response_carries_the_call_identity() {
    let c = call("Bash", vec![]);
    let r = tool_response(&c, "done".to_string());
    assert_eq!(r.tool_call_id, "id-1");
    assert_eq!(r.tool_name, "Bash");
    assert!(matches!(r.content, JsonValue::String(ref t) if t == "done"));
}

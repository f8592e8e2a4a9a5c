//! How the transcript shows tool calls and their JSON values: the result of a
//! command condensed to its status, sizes and output, anything else indented.
use vstd::prelude::*;

use serde_json::Value;

use crate::executor::json::{
    compact_json_text, json_as_bool, json_as_i64, json_as_str, json_as_u64, json_contents, json_get_key, json_kind,
    json_object_len, json_pretty_text, json_string, json_text, model_child, number_i64, number_u64, pretty_json_text,
    JsonKind, JsonModel, PathStep,
};
use crate::text::{
    decimal_chars, integer_chars, is_blank, is_blank_str, join_with, joined_with, push_decimal, string_views, trim_end,
    trim_end_chars,
};

verus! {

pub open spec fn field(m: JsonModel, key: Seq<char>) -> Option<JsonModel> {
    model_child(m, PathStep::Key(key))
}

pub open spec fn has_field(m: JsonModel, key: Seq<char>) -> bool {
    field(m, key) is Some
}

pub open spec fn str_field(m: JsonModel, key: Seq<char>) -> Option<Seq<char>> {
    match field(m, key) {
        Some(JsonModel::Str(text)) => Some(text),
        _ => None,
    }
}

pub open spec fn u64_field(m: JsonModel, key: Seq<char>) -> Option<nat> {
    match field(m, key) {
        Some(JsonModel::Number(text)) => number_u64(text),
        _ => None,
    }
}

pub open spec fn i64_field(m: JsonModel, key: Seq<char>) -> Option<int> {
    match field(m, key) {
        Some(JsonModel::Number(text)) => number_i64(text),
        _ => None,
    }
}

/// Whether an object reads as the result of a command: it has one of the
/// fields that such results carry.
pub open spec fn result_like(m: JsonModel) -> bool {
    ||| has_field(m, "status"@)
    ||| has_field(m, "timed_out"@)
    ||| has_field(m, "duration_ms"@)
    ||| has_field(m, "waited_ms"@)
    ||| has_field(m, "stdout"@)
    ||| has_field(m, "stderr"@)
    ||| has_field(m, "output"@)
    ||| has_field(m, "exit_code"@)
    ||| has_field(m, "stdout_artifact"@)
    ||| has_field(m, "stderr_artifact"@)
}

pub open spec fn line_if(shown: bool, line: Seq<char>) -> Seq<Seq<char>> {
    if shown {
        seq![line]
    } else {
        Seq::empty()
    }
}

/// A stream's text: shown, trailing whitespace cut, unless it is blank.
pub open spec fn stream_lines(label: Seq<char>, text: Option<Seq<char>>) -> Seq<Seq<char>> {
    let text = match text {
        Some(t) => t,
        None => Seq::empty(),
    };
    line_if(!is_blank(text), label + ":\n"@ + trim_end_chars(text))
}

pub open spec fn status_lines(m: JsonModel) -> Seq<Seq<char>> {
    seq![
        "status: "@ + match field(m, "status"@) {
            Some(v) => compact_json_text(v),
            None => "unknown"@,
        },
    ]
}

pub open spec fn count_lines(m: JsonModel, key: Seq<char>) -> Seq<Seq<char>> {
    match u64_field(m, key) {
        Some(n) => seq![key + ": "@ + decimal_chars(n)],
        None => Seq::empty(),
    }
}

pub open spec fn exit_code_lines(m: JsonModel) -> Seq<Seq<char>> {
    match i64_field(m, "exit_code"@) {
        Some(code) => seq!["exit_code: "@ + integer_chars(code)],
        None => Seq::empty(),
    }
}

pub open spec fn handle_lines(m: JsonModel) -> Seq<Seq<char>> {
    match str_field(m, "handle"@) {
        Some(handle) => seq!["handle: "@ + handle],
        None => Seq::empty(),
    }
}

/// The output, quoted when it is blank.
pub open spec fn output_lines(m: JsonModel) -> Seq<Seq<char>> {
    match str_field(m, "output"@) {
        Some(output) => if is_blank(output) {
            seq!["output: "@ + compact_json_text(JsonModel::Str(output))]
        } else {
            seq!["output:\n"@ + trim_end_chars(output)]
        },
        None => Seq::empty(),
    }
}

pub open spec fn artifact_lines(m: JsonModel, key: Seq<char>) -> Seq<Seq<char>> {
    match field(m, key) {
        Some(artifact) => seq![key + ":\n"@ + pretty_json_text(artifact)],
        None => Seq::empty(),
    }
}

/// The lines of a command result: its status (`unknown` when it has none),
/// then its durations, whether it timed out, its exit code, handle, output,
/// streams and artifacts, each where it has one.
pub open spec fn result_lines(m: JsonModel) -> Seq<Seq<char>> {
    status_lines(m) + count_lines(m, "duration_ms"@) + count_lines(m, "waited_ms"@) + line_if(
        field(m, "timed_out"@) == Some(JsonModel::Bool(true)),
        "timed_out: true"@,
    ) + exit_code_lines(m) + handle_lines(m) + output_lines(m) + stream_lines("stdout"@, str_field(m, "stdout"@))
        + stream_lines("stderr"@, str_field(m, "stderr"@)) + artifact_lines(m, "stdout_artifact"@) + artifact_lines(
        m,
        "stderr_artifact"@,
    )
}

/// A JSON value as the transcript shows it: a command result condensed to
/// its lines, anything else indented.
pub open spec fn shown_json(m: JsonModel) -> Seq<char> {
    if m is Object && result_like(m) {
        joined_with(result_lines(m), "\n"@)
    } else {
        pretty_json_text(m)
    }
}

fn push_line(lines: &mut Vec<String>, line: String)
    ensures
        string_views(final(lines)@) == string_views(old(lines)@).push(line@),
{
    lines.push(line);
    assert(string_views(lines@) =~= string_views(old(lines)@).push(line@));
}

fn labelled(label: &str, text: &str) -> (line: String)
    ensures
        line@ == label@ + text@,
{
    let mut line = label.to_owned();
    line.append(text);
    line
}

fn has_key(value: &Value, key: &str) -> (present: bool)
    ensures
        present == has_field(json_contents(*value), key@),
{
    json_get_key(value, key).is_some()
}

fn str_value<'a>(value: &'a Value, key: &str) -> (text: Option<&'a str>)
    ensures
        match str_field(json_contents(*value), key@) {
            Some(t) => text matches Some(s) && s@ == t,
            None => text is None,
        },
{
    match json_get_key(value, key) {
        Some(child) => json_as_str(child),
        None => None,
    }
}

fn stream_line(lines: &mut Vec<String>, label: &str, text: Option<&str>)
    ensures
        string_views(final(lines)@) == string_views(old(lines)@) + stream_lines(
            label@,
            match text {
                Some(t) => Some(t@),
                None => None,
            },
        ),
{
    let text = match text {
        Some(t) => t,
        None => "",
    };
    proof {
        reveal_strlit("");
    }
    if !is_blank_str(text) {
        let mut line = label.to_owned();
        line.append(":\n");
        let trimmed = trim_end(text);
        line.append(trimmed.as_str());
        push_line(lines, line);
    } else {
        assert(string_views(lines@) =~= string_views(old(lines)@) + Seq::<Seq<char>>::empty());
    }
}

fn count_line(lines: &mut Vec<String>, value: &Value, key: &str)
    ensures
        string_views(final(lines)@) == string_views(old(lines)@) + count_lines(json_contents(*value), key@),
{
    match json_get_key(value, key) {
        Some(child) => match json_as_u64(child) {
            Some(n) => {
                let mut line = key.to_owned();
                line.append(": ");
                push_decimal(&mut line, n);
                push_line(lines, line);
                return;
            },
            None => {},
        },
        None => {},
    }
    assert(string_views(lines@) =~= string_views(old(lines)@) + count_lines(json_contents(*value), key@));
}

fn artifact_line(lines: &mut Vec<String>, value: &Value, key: &str)
    ensures
        string_views(final(lines)@) == string_views(old(lines)@) + artifact_lines(json_contents(*value), key@),
{
    match json_get_key(value, key) {
        Some(artifact) => {
            let shown = json_pretty_text(artifact);
            let mut line = key.to_owned();
            line.append(":\n");
            line.append(shown.as_str());
            push_line(lines, line);
        },
        None => {
            assert(string_views(lines@) =~= string_views(old(lines)@) + artifact_lines(json_contents(*value), key@));
        },
    }
}

fn exit_code_line(lines: &mut Vec<String>, value: &Value)
    ensures
        string_views(final(lines)@) == string_views(old(lines)@) + exit_code_lines(json_contents(*value)),
{
    match json_get_key(value, "exit_code") {
        Some(code) => match json_as_i64(code) {
            Some(c) => {
                let mut line = "exit_code: ".to_owned();
                if c < 0 {
                    line.append("-");
                    let magnitude: u64 = if c == i64::MIN {
                        9223372036854775808u64
                    } else {
                        (0 - c) as u64
                    };
                    push_decimal(&mut line, magnitude);
                } else {
                    push_decimal(&mut line, c as u64);
                }
                proof {
                    reveal_strlit("-");
                }
                assert(line@ =~= "exit_code: "@ + integer_chars(c as int));
                push_line(lines, line);
                return;
            },
            None => {},
        },
        None => {},
    }
    assert(string_views(lines@) =~= string_views(old(lines)@) + exit_code_lines(json_contents(*value)));
}

fn handle_line(lines: &mut Vec<String>, value: &Value)
    ensures
        string_views(final(lines)@) == string_views(old(lines)@) + handle_lines(json_contents(*value)),
{
    match str_value(value, "handle") {
        Some(handle) => push_line(lines, labelled("handle: ", handle)),
        None => {
            assert(string_views(lines@) =~= string_views(old(lines)@) + handle_lines(json_contents(*value)));
        },
    }
}

fn output_line(lines: &mut Vec<String>, value: &Value)
    ensures
        string_views(final(lines)@) == string_views(old(lines)@) + output_lines(json_contents(*value)),
{
    match str_value(value, "output") {
        Some(output) => {
            if is_blank_str(output) {
                let quoted = json_text(&json_string(output.to_owned()));
                push_line(lines, labelled("output: ", quoted.as_str()));
            } else {
                let trimmed = trim_end(output);
                push_line(lines, labelled("output:\n", trimmed.as_str()));
            }
        },
        None => {
            assert(string_views(lines@) =~= string_views(old(lines)@) + output_lines(json_contents(*value)));
        },
    }
}

/// The transcript's view of a JSON value.
pub fn pretty_json_value(value: &Value) -> (shown: String)
    ensures
        shown@ == shown_json(json_contents(*value)),
{
    let ghost m = json_contents(*value);
    if json_kind(value) != JsonKind::Object {
        return json_pretty_text(value);
    }
    let result_like = has_key(value, "status") || has_key(value, "timed_out") || has_key(value, "duration_ms")
        || has_key(value, "waited_ms") || has_key(value, "stdout") || has_key(value, "stderr") || has_key(
        value,
        "output",
    ) || has_key(value, "exit_code") || has_key(value, "stdout_artifact") || has_key(value, "stderr_artifact");
    if !result_like {
        return json_pretty_text(value);
    }
    let mut lines: Vec<String> = Vec::new();
    let status = match json_get_key(value, "status") {
        Some(status) => json_text(status),
        None => "unknown".to_owned(),
    };
    push_line(&mut lines, labelled("status: ", status.as_str()));
    let ghost after_status = string_views(lines@);
    proof {
        reveal_strlit("unknown");
        assert(after_status =~= status_lines(m));
    }
    count_line(&mut lines, value, "duration_ms");
    let ghost after_duration = string_views(lines@);
    count_line(&mut lines, value, "waited_ms");
    let ghost after_waited = string_views(lines@);
    let timed_out = match json_get_key(value, "timed_out") {
        Some(flag) => match json_as_bool(flag) {
            Some(b) => b,
            None => false,
        },
        None => false,
    };
    if timed_out {
        push_line(&mut lines, "timed_out: true".to_owned());
    }
    let ghost after_timed_out = string_views(lines@);
    proof {
        assert(after_timed_out =~= after_waited + line_if(
            field(m, "timed_out"@) == Some(JsonModel::Bool(true)),
            "timed_out: true"@,
        ));
    }
    exit_code_line(&mut lines, value);
    let ghost after_exit = string_views(lines@);
    proof {
        assert(after_exit =~= after_timed_out + exit_code_lines(m));
    }
    handle_line(&mut lines, value);
    let ghost after_handle = string_views(lines@);
    proof {
        assert(after_handle =~= after_exit + handle_lines(m));
    }
    output_line(&mut lines, value);
    let ghost after_output = string_views(lines@);
    proof {
        assert(after_output =~= after_handle + output_lines(m));
    }
    stream_line(&mut lines, "stdout", str_value(value, "stdout"));
    let ghost after_stdout = string_views(lines@);
    stream_line(&mut lines, "stderr", str_value(value, "stderr"));
    let ghost after_stderr = string_views(lines@);
    artifact_line(&mut lines, value, "stdout_artifact");
    artifact_line(&mut lines, value, "stderr_artifact");
    proof {
        assert(string_views(lines@) =~= result_lines(m));
    }
    join_with(&lines, "\n")
}

/// A tool call as the transcript shows it: the tool's name, `#` and the call
/// id where there is one, and below them the arguments unless there are none.
pub open spec fn shown_tool_call(name: Seq<char>, id: Option<Seq<char>>, arguments: JsonModel) -> Seq<char> {
    let head = match id {
        Some(id) => if id.len() > 0 { name + " #"@ + id } else { name },
        None => name,
    };
    let rendered = match arguments {
        JsonModel::Null => Seq::empty(),
        JsonModel::Object(entries) => if entries.len() == 0 {
            Seq::empty()
        } else {
            "\n"@ + shown_json(arguments)
        },
        _ => "\n"@ + shown_json(arguments),
    };
    head + rendered
}

pub fn pretty_tool_call(name: &str, id: Option<&str>, arguments: &Value) -> (shown: String)
    ensures
        shown@ == shown_tool_call(
            name@,
            match id {
                Some(i) => Some(i@),
                None => None,
            },
            json_contents(*arguments),
        ),
{
    let mut shown = name.to_owned();
    match id {
        Some(id) => {
            if !id.is_empty() {
                shown.append(" #");
                shown.append(id);
            }
        },
        None => {},
    }
    let kind = json_kind(arguments);
    let bare = kind == JsonKind::Null || (kind == JsonKind::Object && json_object_len(arguments) == 0);
    if !bare {
        shown.append("\n");
        let rendered = pretty_json_value(arguments);
        shown.append(rendered.as_str());
    }
    proof {
        reveal_strlit("");
    }
    shown
}

} // verus!

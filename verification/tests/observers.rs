use phi::features::observers::echo::{format_message, pretty_info, pretty_runtime_error, pretty_warning, EchoModule, OutputStream, Role};
use phi::features::observers::spinner::{
    ascii_styles, display_label, format_elapsed, looks_utf8, running_label, thinking_label_index, thinking_labels,
    utf8_styles,
};

fn strip_ansi(input: &str) -> String {
    let mut output = String::with_capacity(input.len());
    let mut chars = input.chars().peekable();
    while let Some(ch) = chars.next() {
        if ch == '\u{1b}' && matches!(chars.peek(), Some('[')) {
            let _ = chars.next();
            for next in chars.by_ref() {
                if ('@'..='~').contains(&next) {
                    break;
                }
            }
            continue;
        }
        output.push(ch);
    }
    output
}

#[test]
fn formats_info_as_transcript_block_without_color_codes() {
    let rendered = pretty_info("resuming from existing session file: session");
    assert!(rendered.contains("[info]"));
    assert!(rendered.contains("resuming from existing session file: session"));
}

#[test]
fn formats_warning_as_yellow_transcript_block_without_color_codes() {
    let rendered = pretty_warning("resuming from failed step by requesting the provider again");
    assert!(rendered.contains("[warning]"));
    assert!(rendered.contains("resuming from failed step by requesting the provider again"));
}

#[test]
fn trims_message_boundary_whitespace_for_display_only() {
    let rendered = format_message(Role::Assistant, "  done  \n", OutputStream::Stdout);
    assert_eq!(strip_ansi(&rendered), "\n[assistant]\ndone");
    let error = pretty_runtime_error("boom \n");
    assert_eq!(strip_ansi(&error), "\n[error]\nboom");
}

#[test]
fn echo_closes_the_transcript_only_after_printing() {
    let mut module = EchoModule::new();
    assert!(!module.needs_closing_newline(true));
    module.record_print();
    assert!(module.needs_closing_newline(true));
    assert!(!module.needs_closing_newline(false));
}

#[test]
fn spinner_frames_are_stable_single_cells_without_emoji() {
    for style in utf8_styles().iter().chain(ascii_styles().iter()) {
        assert!(!style.frames.is_empty());
        for frame in &style.frames {
            let frame = frame.to_string();
            assert_eq!(frame.chars().count(), 1, "frame: {frame}");
            let scalar = frame.chars().next().unwrap() as u32;
            assert!(!(0x1f000..=0x1faff).contains(&scalar), "emoji spinner frame: {frame}");
        }
    }
}

#[test]
fn non_utf8_spinner_styles_are_ascii_only() {
    assert!(ascii_styles().iter().flat_map(|style| style.frames.iter()).all(|frame| frame.is_ascii()));
}

#[test]
fn elapsed_time_is_shown_in_the_largest_units() {
    assert_eq!(format_elapsed(5), "5s");
    assert_eq!(format_elapsed(65), "1m 05s");
    assert_eq!(format_elapsed(3723), "1h 02m 03s");
    assert_eq!(format_elapsed(0), "0s");
}

#[test]
fn thinking_label_rotates_every_three_seconds() {
    let labels = thinking_labels();
    assert_eq!(labels.len(), 69);
    assert_eq!(display_label("running bash_job", &labels, 4, 100), "running bash_job");
    assert_eq!(display_label("thinking", &labels, 0, 2), labels[0]);
    assert_eq!(display_label("thinking", &labels, 0, 3), labels[1]);
    assert_eq!(thinking_label_index(68, 3), 0);
    assert_eq!(running_label("bash_job"), "running bash_job");
}

#[test]
fn locale_names_utf8_in_either_spelling() {
    assert!(looks_utf8(Some("en_US.UTF-8")));
    assert!(looks_utf8(Some("C.utf8")));
    assert!(!looks_utf8(Some("POSIX")));
    assert!(!looks_utf8(None));
}

use phi::features::observers::tool_display::{pretty_json_value, pretty_tool_call};

fn json(text: &str) -> serde_json::Value {
    serde_json::from_str(text).expect("test JSON should parse")
}

#[test]
fn formats_tool_call_as_transcript_block() {
    let rendered = format_message(
        Role::ToolCall,
        &pretty_tool_call("bash", Some("call_123"), &json(r#"{"command":"pwd"}"#)),
        OutputStream::Stdout,
    );

    assert_eq!(strip_ansi(&rendered), "\n[tool:call]\nbash #call_123\n{\n  \"command\": \"pwd\"\n}");
}

#[test]
fn job_close_call_arguments_are_not_misread_as_a_job_result() {
    let rendered = format_message(
        Role::ToolCall,
        &pretty_tool_call("job_close", Some("call_123"), &json(r#"{"handle":"mira-kest"}"#)),
        OutputStream::Stdout,
    );

    assert_eq!(strip_ansi(&rendered), "\n[tool:call]\njob_close #call_123\n{\n  \"handle\": \"mira-kest\"\n}");
    assert!(!rendered.contains("status: unknown"));
}

#[test]
fn shell_like_results_are_condensed() {
    let value = json(r#"{"status":0,"timed_out":false,"duration_ms":12,"stdout":"hello\n","stderr":""}"#);
    assert_eq!(pretty_json_value(&value), "status: 0\nduration_ms: 12\nstdout:\nhello");
}

#[test]
fn job_results_are_condensed() {
    let value = json(r#"{"status":"running","exit_code":null,"handle":"mira-kest","waited_ms":1500,"output":"ready\r\n"}"#);
    assert_eq!(pretty_json_value(&value), "status: \"running\"\nwaited_ms: 1500\nhandle: mira-kest\noutput:\nready");
}

#[test]
fn empty_job_output_is_shown_quoted() {
    let value = json(r#"{"status":"running","handle":"mira-kest","waited_ms":60000,"output":""}"#);
    assert_eq!(pretty_json_value(&value), "status: \"running\"\nwaited_ms: 60000\nhandle: mira-kest\noutput: \"\"");
}

#[test]
fn results_show_exit_codes_timeouts_and_artifacts() {
    let value = json(r#"{"exit_code":-2,"timed_out":true,"stderr":"bad\n","stdout_artifact":{"path":"/tmp/x"}}"#);
    assert_eq!(
        pretty_json_value(&value),
        "status: unknown\ntimed_out: true\nexit_code: -2\nstderr:\nbad\nstdout_artifact:\n{\n  \"path\": \"/tmp/x\"\n}"
    );
}

#[test]
fn tool_calls_without_arguments_show_only_the_name() {
    assert_eq!(pretty_tool_call("job_close", None, &serde_json::Value::Null), "job_close");
    assert_eq!(pretty_tool_call("job_close", Some(""), &json("{}")), "job_close");
    assert_eq!(pretty_tool_call("x", Some("id"), &json("[1]")), "x #id\n[\n  1\n]");
}

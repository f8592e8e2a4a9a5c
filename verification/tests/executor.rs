use phi::container::job::{JobAccessResult, JobHandle, JobInfo, JobStatus};
use phi::executor::registry::{PhiExecutorBuildError, PhiToolExecutionError, ToolRegistry};
use phi::executor::shell_job::{
    interaction_info, interactive_input, invalid_arguments_detail, job_report, job_report_value, response,
    shell_job_tool_names, written_ack, InteractiveInput, ShellJobExecTool,
};
use phi::executor::tool_call::{ToolCallRequest, ToolCallResponse};

fn request(name: &str) -> ToolCallRequest {
    ToolCallRequest { id: "call-1".into(), call_id: None, name: name.into(), arguments: serde_json::Value::Null }
}

#[test]
fn defaults_use_persistent_job_tools_only() {
    let names = shell_job_tool_names(false);
    assert_eq!(names, vec!["bash_job", "job_interact", "job_close"]);
    let names_on_windows = shell_job_tool_names(true);
    assert_eq!(names_on_windows, vec!["powershell_job", "job_interact", "job_close"]);
    assert!(!names.iter().any(|name| *name == "bash" || *name == "powershell"));
    assert_eq!(ShellJobExecTool::name(false), "bash_job");
    assert_eq!(ShellJobExecTool::description(true), "Run a PowerShell command job.");
}

#[test]
fn tool_response_reports_actual_wait_duration() {
    let request = ToolCallRequest {
        id: "call-1".into(),
        call_id: None,
        name: "job_interact".into(),
        arguments: serde_json::Value::Object(serde_json::Map::new()),
    };
    let info = JobInfo::new(JobStatus::Running, String::new(), false, 123);

    let response = response(&request, "job_interact", info, Some(JobHandle("mira-kest".into())));

    assert_eq!(response.output.as_value()["waited_ms"], 123);
    assert_eq!(response.output.as_value()["truncated"], false);
    assert!(response.output.as_value().get("output_truncated").is_none());
    assert!(response.output.as_value().get("screen").is_none());
}

#[test]
fn job_status_does_not_define_phi_tool_success() {
    let request = ToolCallRequest {
        id: "call-1".into(),
        call_id: None,
        name: "bash_job".into(),
        arguments: serde_json::Value::Object(serde_json::Map::new()),
    };

    for (status, expected_status, expected_exit_code) in [
        (JobStatus::Exited(17), "exited", serde_json::Value::from(17)),
        (JobStatus::NoExist, "not_found", serde_json::Value::Null),
    ] {
        let response = response(&request, "bash_job", JobInfo::new(status, String::new(), false, 0), None);

        assert_eq!(response.output.as_value()["status"], expected_status);
        assert_eq!(response.output.as_value()["exit_code"], expected_exit_code);
    }
}

#[test]
fn job_report_holds_the_handle_only_while_running() {
    for (status, handle) in [
        (JobStatus::Running, serde_json::Value::String("mira-kest".into())),
        (JobStatus::Exited(-3), serde_json::Value::Null),
    ] {
        let report = job_report(JobInfo::new(status, "out".into(), true, 5), Some(JobHandle("mira-kest".into())));
        let value = job_report_value(report);
        assert_eq!(value["handle"], handle);
        assert_eq!(value["output"], "out");
        assert_eq!(value["truncated"], true);
        assert_eq!(value.as_object().map(|map| map.len()), Some(6));
    }
    let report = job_report(JobInfo::new(JobStatus::Exited(-3), String::new(), false, 0), None);
    assert_eq!(job_report_value(report)["exit_code"], serde_json::Value::from(-3));
}

#[test]
fn interactive_input_presses_enter_only_when_needed() {
    assert!(matches!(interactive_input(None, false), InteractiveInput::Direct(data) if data.is_empty()));
    assert!(matches!(interactive_input(Some(String::new()), false), InteractiveInput::Direct(data) if data == "\r"));
    assert!(matches!(interactive_input(Some("ls\n".into()), false), InteractiveInput::Direct(data) if data == "ls\n"));
    assert!(matches!(interactive_input(Some("ls".into()), false), InteractiveInput::Submit(data) if data == "ls"));
    assert!(matches!(
        interactive_input(Some("a\r\nb\n".into()), true),
        InteractiveInput::Direct(data) if data == "a\rb\r"
    ));
}

#[test]
fn job_access_answers_must_fit_the_request() {
    let info = JobInfo::new(JobStatus::Running, "out".into(), false, 5);
    assert!(interaction_info(JobAccessResult::Interacted(info)).is_ok());
    assert_eq!(
        interaction_info(JobAccessResult::Written(JobStatus::Running)).err().as_deref(),
        Some("job access returned a write acknowledgment for interact request")
    );
    assert!(written_ack(JobAccessResult::Written(JobStatus::Running)).is_ok());
    assert_eq!(
        written_ack(JobAccessResult::Interacted(JobInfo::new(JobStatus::Running, String::new(), false, 0)))
            .err()
            .as_deref(),
        Some("job access returned a terminal snapshot for write request")
    );
    assert_eq!(invalid_arguments_detail("job_close", "missing field"), "invalid job_close tool arguments: missing field");
}

#[test]
fn registry_keeps_registration_order_and_refuses_bad_names() {
    let names = vec!["bash_job".to_string(), "job_interact".to_string(), "job_close".to_string()];
    let registry = ToolRegistry::from_names(&names).ok().expect("distinct names register");
    assert_eq!(registry.position("job_interact"), Some(1));
    assert_eq!(registry.position("missing"), None);

    let duplicate = ToolRegistry::from_names(&vec!["a".to_string(), "b".to_string(), "a".to_string()]);
    let Err(error) = duplicate else { panic!("a duplicate name must be refused") };
    assert!(matches!(&error, PhiExecutorBuildError::DuplicateToolName { name } if name == "a"));
    assert_eq!(error.message(), "tool a is already registered on this executor");

    let blank = ToolRegistry::from_names(&vec!["a".to_string(), "  ".to_string()]);
    let Err(error) = blank else { panic!("a blank name must be refused") };
    assert_eq!(error.message(), "tool name cannot be empty");
}

#[test]
fn unknown_tools_are_refused_with_the_request() {
    let registry = ToolRegistry::from_names(&vec!["bash_job".to_string()]).ok().expect("registers");
    assert!(matches!(registry.dispatch(request("bash_job")), Ok((0, _))));
    let Err(PhiToolExecutionError::NotFound { detail, request: refused }) = registry.dispatch(request("nope")) else {
        panic!("an unknown tool must be refused")
    };
    assert_eq!(detail, "assistant requested unknown tool: nope");
    assert_eq!(refused.name, "nope");
}

#[test]
fn responses_keep_the_request_ids() {
    let mut req = request("bash_job");
    req.call_id = Some("call_x".into());
    let response = ToolCallResponse::new(&req, "bash_job".into(), serde_json::Value::Bool(true));
    assert_eq!(response.id, "call-1");
    assert_eq!(response.call_id.as_deref(), Some("call_x"));
    assert_eq!(response.output.as_value(), &serde_json::Value::Bool(true));
    assert_eq!(req.result_id(), "call_x");
}

use phi::executor::shell_job::{ShellJobCloseTool, ShellJobInteractTool};

fn json(text: &str) -> serde_json::Value {
    serde_json::from_str(text).expect("test JSON should parse")
}

#[test]
fn exec_tool_takes_one_command() {
    assert_eq!(
        ShellJobExecTool::parameters(),
        json(
            r#"{"type":"object","properties":{"cmd":{"type":"string","description":"Shell command to execute"}},"required":["cmd"],"additionalProperties":false}"#
        )
    );
}

#[test]
fn close_tool_takes_one_handle() {
    assert_eq!(
        ShellJobCloseTool::parameters(),
        json(
            r#"{"type":"object","properties":{"handle":{"type":"string","description":"Job handle returned by the shell job tool"}},"required":["handle"],"additionalProperties":false}"#
        )
    );
}

#[test]
fn interact_tool_waits_a_minute_by_default() {
    let schema = ShellJobInteractTool::parameters();
    assert_eq!(schema["required"], json(r#"["handle"]"#));
    assert_eq!(schema["additionalProperties"], false);
    let wait = &schema["properties"]["wait_ms"];
    assert_eq!(wait["type"], "integer");
    assert_eq!(wait["minimum"], 0);
    assert_eq!(wait["default"], 60000);
    assert_eq!(schema["properties"]["input"]["type"], "string");
    assert_eq!(
        schema["properties"]["handle"]["description"],
        "Handle of an already-running program returned by the shell job tool"
    );
    assert!(ShellJobInteractTool::description().starts_with("Interact with a program"));
}

use phi::executor::shell_job::shell_job_tool_definitions;

#[test]
fn shell_job_definitions_follow_the_platform() {
    let tools = shell_job_tool_definitions(false);
    let names: Vec<&str> = tools.iter().map(|tool| tool.name.as_str()).collect();
    assert_eq!(names, vec!["bash_job", "job_interact", "job_close"]);
    assert_eq!(tools[0].parameters, ShellJobExecTool::parameters());
    assert_eq!(tools[2].description, "Read current output, stop a local job, and release its resources.");
    assert_eq!(shell_job_tool_definitions(true)[0].name, "powershell_job");
}

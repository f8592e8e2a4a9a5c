use phi::error::{validate_completed_tool_results, PhiAgentRuntimeError, PhiError, PhiFailedToolTurn};
use phi::executor::tool_call::ToolCallRequest;
use phi::message::{PhiAssistantMessage, PhiToolResultMessage};

fn request(id: &str, call_id: Option<&str>) -> ToolCallRequest {
    ToolCallRequest {
        id: id.to_string(),
        call_id: call_id.map(str::to_string),
        name: "bash_job".to_string(),
        arguments: serde_json::Value::Null,
    }
}

fn result(id: Option<&str>) -> PhiToolResultMessage {
    PhiToolResultMessage { id: id.map(str::to_string), name: None, result: serde_json::Value::Null }
}

#[test]
fn rejects_a_turn_without_a_failed_request() {
    let error = PhiFailedToolTurn::new(
        Vec::<String>::new(),
        PhiAssistantMessage::tool_calls(Vec::new()),
        Vec::new(),
    )
    .err()
    .expect("failed turn must identify its request");

    assert!(error.detail().contains("failed tool turn has"));
    assert_eq!(error.detail(), "failed tool turn has 0 completed results for 0 tool calls");
}

#[test]
fn failed_turn_names_the_call_after_the_completed_results() {
    let calls = vec![request("a", Some("call_a")), request("b", None), request("c", None)];
    let turn = PhiFailedToolTurn::new(
        vec!["pending".to_string()],
        PhiAssistantMessage::tool_calls(calls),
        vec![result(Some("call_a"))],
    )
    .ok()
    .expect("a turn whose completed result matches its call is valid");
    assert_eq!(turn.failed_request().map(|r| r.id.as_str()), Some("b"));
    let remaining: Vec<&str> = turn.remaining_requests().iter().map(|r| r.id.as_str()).collect();
    assert_eq!(remaining, vec!["c"]);
    assert_eq!(turn.pending_messages(), ["pending".to_string()]);

    let error = PhiAgentRuntimeError::tool_not_found("no such tool".to_string(), turn);
    assert_eq!(error.detail(), "no such tool");
    assert_eq!(error.tool_request().map(|r| r.id.as_str()), Some("b"));
    assert_eq!(error.remaining_tool_requests().map(|r| r.len()), Some(1));
    assert_eq!(error.pending_results().map(|r| r.len()), Some(1));
}

#[test]
fn mismatched_completed_result_is_a_session_error() {
    let assistant = PhiAssistantMessage::tool_calls(vec![request("a", None), request("b", None)]);
    let checked = validate_completed_tool_results::<String>(&assistant, &vec![result(Some("zzz"))], "turn");
    let Err(error) = checked else { panic!("a result under another id must be refused") };
    assert!(matches!(error, PhiAgentRuntimeError::Session { .. }));
    assert_eq!(error.detail(), "turn result 0 does not match its tool call id");
}

#[test]
fn tool_error_detail_is_fixed_text() {
    let turn = PhiFailedToolTurn::new(
        Vec::<String>::new(),
        PhiAssistantMessage::tool_calls(vec![request("a", None)]),
        Vec::new(),
    )
    .ok()
    .expect("valid turn");
    let error = PhiAgentRuntimeError::tool_error(serde_json::Value::Bool(true), turn);
    assert_eq!(error.detail(), "tool execution failed");
    assert_eq!(error.tool_error_detail(), Some(&serde_json::Value::Bool(true)));
    let user_facing = PhiError::from_runtime_error(error);
    assert_eq!(user_facing.detail(), "tool execution failed");
    assert_eq!(PhiError::message("plain".to_string()).detail(), "plain");
}

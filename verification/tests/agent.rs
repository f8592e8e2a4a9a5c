use phi::agent::runtime::{
    configured_system_prompt, merge_tool_definitions, recovered_tool_result, recovery_action, repair_tool_calls,
    DoctorSystemPrompt, FailureClass, ParentStep, RecoveryAction,
};
use phi::agent::step::{
    appended_history_tail, apply_bounce, core_step_action, next_tool_call, plan_provider_response, CoreStepAction,
    PhiModelTurnState, ProviderOutcome, ResponseItem, StepBounce, StepKind,
};
use phi::executor::tool_call::{PhiToolDefinition, ToolCallRequest};
use phi::expr::{PhiExprDelta, PhiStepExpr};
use phi::message::PhiAssistantMessage;

fn call(id: &str) -> ToolCallRequest {
    ToolCallRequest { id: id.into(), call_id: None, name: "bash_job".into(), arguments: serde_json::Value::Null }
}

fn tool(name: &str, description: &str) -> PhiToolDefinition {
    PhiToolDefinition { name: name.into(), description: description.into(), parameters: serde_json::Value::Null }
}

#[test]
fn tool_calls_wait_for_execution_with_the_messages_before_them() {
    let outcome = plan_provider_response(
        vec!["hook".to_string()],
        vec![
            ResponseItem::Assistant("thinking aloud".to_string()),
            ResponseItem::ToolCall { id: Some("call_1".into()), name: "bash_job".into(), arguments: serde_json::Value::Null },
            ResponseItem::ToolCall { id: None, name: "job_close".into(), arguments: serde_json::Value::Null },
        ],
        PhiModelTurnState::Complete,
    );
    let ProviderOutcome::RequestExecutor { detail, pending_messages, tool_calls } = outcome else {
        panic!("tool calls must wait for execution")
    };
    assert_eq!(detail, "tool execution is pending");
    assert_eq!(pending_messages, vec!["hook".to_string(), "thinking aloud".to_string()]);
    assert_eq!(tool_calls.len(), 2);
    assert_eq!(tool_calls[0].id, "call_1");
    assert_eq!(tool_calls[0].call_id.as_deref(), Some("call_1"));
    assert_eq!(tool_calls[1].id, "job_close");
    assert_eq!(tool_calls[1].call_id, None);
}

#[test]
fn a_response_without_tool_calls_is_committed() {
    let outcome = plan_provider_response(
        vec!["hook".to_string()],
        vec![ResponseItem::Other("note".to_string()), ResponseItem::Assistant("done".to_string())],
        PhiModelTurnState::Complete,
    );
    let ProviderOutcome::Commit { messages, assistants, continue_turn, detail } = outcome else {
        panic!("a plain response is committed")
    };
    assert_eq!(messages, vec!["hook".to_string(), "note".to_string(), "done".to_string()]);
    assert_eq!(assistants, vec![2]);
    assert!(!continue_turn);
    assert_eq!(detail, "model response committed; no tool execution is pending");

    let outcome = plan_provider_response(Vec::<String>::new(), Vec::new(), PhiModelTurnState::Continue);
    let ProviderOutcome::Commit { continue_turn, detail, .. } = outcome else { panic!("commit") };
    assert!(continue_turn);
    assert_eq!(detail, "provider response requires another model request");
}

#[test]
fn appended_history_is_what_modules_added() {
    let base = vec!["a".to_string(), "b".to_string()];
    let same = |x: &String, y: &String| x == y;
    assert_eq!(
        appended_history_tail(&base, vec!["a".into(), "b".into(), "c".into()], &same),
        vec!["c".to_string()]
    );
    assert!(appended_history_tail(&base, vec!["a".into(), "x".into(), "c".into()], &same).is_empty());
    assert!(appended_history_tail(&base, vec!["a".into()], &same).is_empty());
}

#[test]
fn the_first_pending_tool_call_runs_next() {
    let Some((first, rest)) = next_tool_call(vec![call("a"), call("b")]) else { panic!("a call is pending") };
    assert_eq!(first.id, "a");
    assert_eq!(rest.len(), 1);
    assert!(next_tool_call(Vec::new()).is_none());
}

#[test]
fn bounces_move_the_session_frame() {
    let base: PhiStepExpr<&str, String, i64> = PhiStepExpr::new("provider", PhiExprDelta::new());
    let delta = PhiExprDelta::from_messages(vec!["reply".to_string()]);
    let next = apply_bounce(base, delta, StepBounce::CreateNextStep("turn_end"));
    assert_eq!(*next.step(), "turn_end");
    assert_eq!(next.delta().history, vec!["reply".to_string()]);

    let failed = apply_bounce(next, PhiExprDelta::from_messages(vec!["lost".to_string()]), StepBounce::RuntimeFailed("failed"));
    assert_eq!(*failed.step(), "failed");
    assert!(failed.delta().history.is_empty());

    let back = apply_bounce(failed, PhiExprDelta::new(), StepBounce::RollbackStep);
    assert_eq!(*back.step(), "turn_end");

    let replaced = apply_bounce(back, PhiExprDelta::from_messages(vec!["more".to_string()]), StepBounce::ReplaceBaseStep("provider"));
    assert_eq!(*replaced.step(), "provider");
    assert_eq!(replaced.delta().history, vec!["reply".to_string(), "more".to_string()]);
    assert_eq!(*replaced.expr().expect("parent kept").step(), "provider");
}

#[test]
fn each_step_kind_has_its_core_action() {
    assert!(matches!(core_step_action(&StepKind::RequestCompact), CoreStepAction::Compact));
    assert!(matches!(core_step_action(&StepKind::RequestProvider), CoreStepAction::RequestProvider));
    assert!(matches!(core_step_action(&StepKind::RequestExecutor), CoreStepAction::ExecuteTools));
    assert!(matches!(core_step_action(&StepKind::TurnEnd), CoreStepAction::ResumeAfterTurnEnd));
    assert!(matches!(core_step_action(&StepKind::Failed), CoreStepAction::KeepFailed));
    assert!(matches!(core_step_action(&StepKind::Compacted), CoreStepAction::ResumeAfterCompaction));
}

#[test]
fn executor_tools_come_first_and_names_are_offered_once() {
    let merged = merge_tool_definitions(
        vec![tool("bash_job", "exec"), tool("job_close", "close")],
        &vec![tool("job_close", "configured"), tool("search", "web"), tool("search", "again")],
    );
    let names: Vec<&str> = merged.iter().map(|t| t.name.as_str()).collect();
    assert_eq!(names, vec!["bash_job", "job_close", "search"]);
    assert_eq!(merged[1].description, "close");
    assert_eq!(merged[2].description, "web");
}

#[test]
fn system_prompt_follows_configuration() {
    assert_eq!(configured_system_prompt(Some("  be brief  "), "built in"), Some("be brief".to_string()));
    assert_eq!(configured_system_prompt(Some("   "), "built in"), Some(String::new()));
    assert_eq!(configured_system_prompt(None, "  built in \n"), Some("built in".to_string()));
    assert_eq!(configured_system_prompt(None, " \n "), None);
    let report = DoctorSystemPrompt::from_prompt(Some("p".into()));
    assert!(report.enabled);
    assert!(!DoctorSystemPrompt::from_prompt(None).enabled);
}

#[test]
fn failed_tool_calls_are_answered_in_place() {
    let mut assistant = PhiAssistantMessage::tool_calls(vec![call("a"), call("b"), call("c")]);
    repair_tool_calls(&mut assistant, 1, call("b2"));
    let ids: Vec<&str> = assistant.tool_calls.iter().map(|c| c.id.as_str()).collect();
    assert_eq!(ids, vec!["a", "b2"]);

    let mut short = PhiAssistantMessage::tool_calls(vec![call("a")]);
    repair_tool_calls(&mut short, 1, call("z"));
    let ids: Vec<&str> = short.tool_calls.iter().map(|c| c.id.as_str()).collect();
    assert_eq!(ids, vec!["a", "z"]);

    let mut with_call_id = call("id");
    with_call_id.call_id = Some("call_7".into());
    let result = recovered_tool_result(&with_call_id, serde_json::Value::Null);
    assert_eq!(result.id.as_deref(), Some("call_7"));
    assert_eq!(result.name.as_deref(), Some("bash_job"));
}

#[test]
fn default_recovery_choices() {
    assert!(matches!(recovery_action(&Some(FailureClass::ContextExceeded), &ParentStep::RequestProvider), RecoveryAction::CompactAndRetry));
    assert!(matches!(recovery_action(&Some(FailureClass::ContextExceeded), &ParentStep::Other), RecoveryAction::KeepFailed));
    assert!(matches!(recovery_action(&Some(FailureClass::ToolFailure), &ParentStep::Root), RecoveryAction::CommitToolFailure));
    assert!(matches!(recovery_action(&Some(FailureClass::Other), &ParentStep::Other), RecoveryAction::Rollback));
    assert!(matches!(recovery_action(&Some(FailureClass::Other), &ParentStep::Root), RecoveryAction::Continue));
    assert!(matches!(recovery_action(&None, &ParentStep::Other), RecoveryAction::Continue));
}

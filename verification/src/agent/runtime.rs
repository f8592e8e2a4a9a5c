//! What the agent runtime decides without waiting on anything: the tools a
//! model request offers, the system prompt, the doctor report, and how a
//! failed tool call is committed so that the turn can go on.
use vstd::prelude::*;

use crate::executor::tool_call::{clone_json, PhiToolDefinition, ToolCallRequest};
use crate::message::{PhiAssistantMessage, PhiToolResultMessage};
use crate::text::{string_equals, trim, trim_chars};

verus! {

/// The names of `tools`, in order.
pub open spec fn tool_names(tools: Seq<PhiToolDefinition>) -> Seq<Seq<char>> {
    tools.map_values(|tool: PhiToolDefinition| tool.name@)
}

/// `first`, then each tool of `extra` whose name is not offered yet.
pub open spec fn merged_tools(first: Seq<PhiToolDefinition>, extra: Seq<PhiToolDefinition>) -> Seq<PhiToolDefinition>
    decreases extra.len(),
{
    if extra.len() == 0 {
        first
    } else {
        let merged = merged_tools(first, extra.drop_last());
        if tool_names(merged).contains(extra.last().name@) {
            merged
        } else {
            merged.push(extra.last())
        }
    }
}

impl PhiToolDefinition {
    pub fn duplicate(&self) -> (copy: Self)
        ensures
            copy == *self,
    {
        PhiToolDefinition {
            name: self.name.clone(),
            description: self.description.clone(),
            parameters: clone_json(&self.parameters),
        }
    }
}

fn offers_tool(tools: &Vec<PhiToolDefinition>, name: &String) -> (offered: bool)
    ensures
        offered == tool_names(tools@).contains(name@),
{
    let mut i: usize = 0;
    while i < tools.len()
        invariant
            i <= tools@.len(),
            forall|k: int| 0 <= k < i ==> #[trigger] tools@[k].name@ != name@,
        decreases tools.len() - i,
    {
        if string_equals(&tools[i].name, name.as_str()) {
            assert(tool_names(tools@)[i as int] == name@);
            return true;
        }
        i += 1;
    }
    assert forall|k: int| 0 <= k < tools@.len() implies tool_names(tools@)[k] != name@ by {
        assert(tools@[k].name@ != name@);
    }
    false
}

/// The tools a model request offers: those of `first` in their order, then
/// those of `extra` whose name is not offered yet, in their order. The
/// executor's tools come first and configured tools after; a request's own
/// tools come before the runtime's.
pub fn merge_tool_definitions(first: Vec<PhiToolDefinition>, extra: &Vec<PhiToolDefinition>) -> (tools: Vec<
    PhiToolDefinition,
>)
    ensures
        tools@ == merged_tools(first@, extra@),
{
    let mut tools = first;
    let ghost start = tools@;
    let mut i: usize = 0;
    while i < extra.len()
        invariant
            i <= extra@.len(),
            tools@ == merged_tools(start, extra@.take(i as int)),
        decreases extra.len() - i,
    {
        proof {
            assert(extra@.take(i + 1).drop_last() =~= extra@.take(i as int));
            assert(extra@.take(i + 1).last() == extra@[i as int]);
        }
        if !offers_tool(&tools, &extra[i].name) {
            tools.push(extra[i].duplicate());
        }
        i += 1;
    }
    assert(extra@.take(i as int) =~= extra@);
    tools
}

/// The system prompt a run uses: the configured one, trimmed, even when it is
/// empty; else the built-in prompt, trimmed, unless nothing is left of it.
pub open spec fn system_prompt_spec(configured: Option<&str>, built_in: Seq<char>) -> Option<Seq<char>> {
    match configured {
        Some(system) => Some(trim_chars(system@)),
        None => if trim_chars(built_in).len() == 0 {
            None
        } else {
            Some(trim_chars(built_in))
        },
    }
}

pub fn configured_system_prompt(configured: Option<&str>, built_in: &str) -> (prompt: Option<String>)
    ensures
        match prompt {
            Some(p) => system_prompt_spec(configured, built_in@) == Some(p@),
            None => system_prompt_spec(configured, built_in@) is None,
        },
{
    match configured {
        Some(system) => Some(trim(system)),
        None => {
            let prompt = trim(built_in);
            if prompt.as_str().is_empty() {
                None
            } else {
                Some(prompt)
            }
        },
    }
}

/// Whether a system prompt is in use, and which.
pub struct DoctorSystemPrompt {
    pub enabled: bool,
    pub content: Option<String>,
}

impl DoctorSystemPrompt {
    pub fn from_prompt(content: Option<String>) -> (report: Self)
        ensures
            report.enabled == content is Some,
            report.content == content,
    {
        DoctorSystemPrompt { enabled: content.is_some(), content }
    }
}

/// What `phi doctor` reports: the home (as the home reports itself), the
/// system prompt, and the tools a model request offers.
pub struct DoctorReport<H> {
    pub home: H,
    pub system: DoctorSystemPrompt,
    pub tools: Vec<PhiToolDefinition>,
}

/// The tool calls an assistant turn keeps once a failed call is answered: the
/// calls before it, then the failed call in its place.
pub open spec fn repaired_tool_calls(calls: Seq<ToolCallRequest>, completed: nat, request: ToolCallRequest) -> Seq<ToolCallRequest> {
    if calls.len() <= completed {
        calls.push(request)
    } else {
        calls.take(completed as int).push(request)
    }
}

/// Cuts the assistant turn back to the completed calls and the failed one.
pub fn repair_tool_calls(assistant: &mut PhiAssistantMessage, completed: usize, request: ToolCallRequest)
    ensures
        final(assistant).tool_calls@ == repaired_tool_calls(old(assistant).tool_calls@, completed as nat, request),
{
    let keep = if completed < usize::MAX { completed + 1 } else { usize::MAX };
    assistant.tool_calls.truncate(keep);
    if assistant.tool_calls.len() <= completed {
        assistant.tool_calls.push(request);
    } else {
        assistant.tool_calls.set(completed, request);
        assert(assistant.tool_calls@ =~= repaired_tool_calls(old(assistant).tool_calls@, completed as nat, request));
    }
}

/// The tool result that answers `request` with `output`.
pub fn recovered_tool_result(request: &ToolCallRequest, output: serde_json::Value) -> (result: PhiToolResultMessage)
    ensures
        result.id == Some(match request.call_id {
            Some(call_id) => call_id,
            None => request.id,
        }),
        result.name == Some(request.name),
        result.result == output,
{
    let id = match &request.call_id {
        Some(call_id) => call_id.clone(),
        None => request.id.clone(),
    };
    PhiToolResultMessage { id: Some(id), name: Some(request.name.clone()), result: output }
}

/// The failure a recovery looks at, as far as the choice depends on it.
pub enum FailureClass {
    /// The history outgrew the provider's context.
    ContextExceeded,
    /// A tool failed or was not found, and the turn names the failed call.
    ToolFailure,
    /// Anything else.
    Other,
}

/// The step of the frame a failed step was taken from.
pub enum ParentStep {
    Root,
    RequestProvider,
    RequestCompact,
    Other,
}

/// What the default recovery does with the base step.
pub enum RecoveryAction {
    /// Compact the history and retry (its retained share is the caller's).
    CompactAndRetry,
    /// Keep the failed step as it is.
    KeepFailed,
    /// Commit a structured result for the failed call and ask the model again.
    CommitToolFailure,
    /// Go back to the parent frame.
    Rollback,
    /// Not a failed step: let evaluation go on.
    Continue,
}

pub open spec fn recovery_action_spec(failed: Option<FailureClass>, parent: ParentStep) -> RecoveryAction {
    match failed {
        None => RecoveryAction::Continue,
        Some(FailureClass::ContextExceeded) => match parent {
            ParentStep::RequestProvider => RecoveryAction::CompactAndRetry,
            ParentStep::RequestCompact => RecoveryAction::CompactAndRetry,
            ParentStep::Other => RecoveryAction::KeepFailed,
            ParentStep::Root => RecoveryAction::Continue,
        },
        Some(FailureClass::ToolFailure) => RecoveryAction::CommitToolFailure,
        Some(FailureClass::Other) => match parent {
            ParentStep::Root => RecoveryAction::Continue,
            _ => RecoveryAction::Rollback,
        },
    }
}

/// The default recovery: a context overflow below a model or compact request
/// compacts; a failed tool call gets a structured result; any other failed
/// step with a parent is rolled back.
pub fn recovery_action(failed: &Option<FailureClass>, parent: &ParentStep) -> (action: RecoveryAction)
    ensures
        action == recovery_action_spec(*failed, *parent),
{
    match failed {
        None => RecoveryAction::Continue,
        Some(FailureClass::ContextExceeded) => match parent {
            ParentStep::RequestProvider => RecoveryAction::CompactAndRetry,
            ParentStep::RequestCompact => RecoveryAction::CompactAndRetry,
            ParentStep::Other => RecoveryAction::KeepFailed,
            ParentStep::Root => RecoveryAction::Continue,
        },
        Some(FailureClass::ToolFailure) => RecoveryAction::CommitToolFailure,
        Some(FailureClass::Other) => match parent {
            ParentStep::Root => RecoveryAction::Continue,
            _ => RecoveryAction::Rollback,
        },
    }
}

} // verus!

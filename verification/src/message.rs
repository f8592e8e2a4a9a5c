//! The parts of conversation messages that tool execution reads.
use vstd::prelude::*;

use crate::executor::tool_call::{clone_json, clone_optional, ToolCallRequest};

verus! {

/// The tool calls of one assistant turn, in the order the model made them.
pub struct PhiAssistantMessage {
    pub tool_calls: Vec<ToolCallRequest>,
}

impl PhiAssistantMessage {
    /// An assistant turn that makes `tool_calls`.
    pub fn tool_calls(tool_calls: Vec<ToolCallRequest>) -> (message: Self)
        ensures
            message.tool_calls@ == tool_calls@,
    {
        PhiAssistantMessage { tool_calls }
    }
}

/// The result of one tool call, filed under the call's id.
pub struct PhiToolResultMessage {
    pub id: Option<String>,
    pub name: Option<String>,
    pub result: serde_json::Value,
}

impl PhiToolResultMessage {
    pub fn duplicate(&self) -> (copy: Self)
        ensures
            copy == *self,
    {
        PhiToolResultMessage { id: clone_optional(&self.id), name: clone_optional(&self.name), result: clone_json(&self.result) }
    }
}

} // verus!

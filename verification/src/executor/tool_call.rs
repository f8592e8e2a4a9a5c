//! Requests for tool calls, and the responses they get.
use vstd::prelude::*;

verus! {

/// A JSON value, carried through unchanged.
#[verifier::external_type_specification]
#[verifier::external_body]
pub struct ExJsonValue(serde_json::Value);

/// A tool the model may call, as the model is told of it.
pub struct PhiToolDefinition {
    pub name: String,
    pub description: String,
    pub parameters: serde_json::Value,
}

/// One tool call that the model asked for.
pub struct ToolCallRequest {
    pub id: String,
    pub call_id: Option<String>,
    pub name: String,
    pub arguments: serde_json::Value,
}

/// What a tool call produced, as JSON.
pub struct ToolCallOutput(pub serde_json::Value);

impl ToolCallOutput {
    pub fn new(value: serde_json::Value) -> (output: Self)
        ensures
            output.0 == value,
    {
        ToolCallOutput(value)
    }

    pub fn as_value(&self) -> (value: &serde_json::Value)
        ensures
            *value == self.0,
    {
        &self.0
    }

    pub fn into_value(self) -> (value: serde_json::Value)
        ensures
            value == self.0,
    {
        self.0
    }
}

/// The answer to one tool call.
pub struct ToolCallResponse {
    pub id: String,
    pub call_id: Option<String>,
    pub name: String,
    pub output: ToolCallOutput,
}

/// A copy of an optional string.
pub fn clone_optional(text: &Option<String>) -> (copy: Option<String>)
    ensures
        copy == *text,
{
    match text {
        Some(text) => Some(text.clone()),
        None => None,
    }
}

impl ToolCallResponse {
    /// The response to `request`, from the tool `name`, with output `value`.
    pub fn new(request: &ToolCallRequest, name: String, value: serde_json::Value) -> (response: Self)
        ensures
            response.id == request.id,
            response.call_id == request.call_id,
            response.name == name,
            response.output.0 == value,
    {
        ToolCallResponse {
            id: request.id.clone(),
            call_id: clone_optional(&request.call_id),
            name,
            output: ToolCallOutput::new(value),
        }
    }
}

/// The id under which a tool call's result is filed: its call id where it has
/// one, else its id.
pub open spec fn result_id(request: ToolCallRequest) -> Seq<char> {
    match request.call_id {
        Some(call_id) => call_id@,
        None => request.id@,
    }
}

impl ToolCallRequest {
    pub fn result_id(&self) -> (id: &String)
        ensures
            id@ == result_id(*self),
    {
        match &self.call_id {
            Some(call_id) => call_id,
            None => &self.id,
        }
    }
}

/// A copy of a JSON value.
#[verifier::external_body]
pub(crate) fn clone_json(value: &serde_json::Value) -> (copy: serde_json::Value)
    ensures
        copy == *value,
{
    value.clone()
}

impl ToolCallRequest {
    /// A copy of this request.
    pub fn duplicate(&self) -> (copy: Self)
        ensures
            copy == *self,
    {
        ToolCallRequest {
            id: self.id.clone(),
            call_id: clone_optional(&self.call_id),
            name: self.name.clone(),
            arguments: clone_json(&self.arguments),
        }
    }
}

} // verus!

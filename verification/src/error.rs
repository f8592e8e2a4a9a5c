//! Failures of agent step evaluation, and the user-facing error.
use vstd::prelude::*;

use crate::executor::tool_call::{result_id, ToolCallRequest};
use crate::message::{PhiAssistantMessage, PhiToolResultMessage};
use crate::text::{decimal_chars, push_decimal};

verus! {

/// A tool turn that failed part-way: the assistant turn, the results of the
/// calls that completed, and the messages that were waiting to be committed.
/// The call after the completed ones is the one that failed.
pub struct PhiFailedToolTurn<M> {
    pub pending_messages: Vec<M>,
    pub assistant: PhiAssistantMessage,
    pub pending_results: Vec<PhiToolResultMessage>,
}

/// Whether `result` is filed under the id of `call`.
pub open spec fn result_matches_call(result: PhiToolResultMessage, call: ToolCallRequest) -> bool {
    result.id matches Some(id) && id@ == result_id(call)
}

/// Whether each of the first `n` completed results is filed under the id of
/// the call at its place.
pub open spec fn results_match_calls(calls: Seq<ToolCallRequest>, results: Seq<PhiToolResultMessage>, n: int) -> bool {
    forall|i: int| 0 <= i < n ==> result_matches_call(#[trigger] results[i], calls[i])
}

/// Number of (result, call) pairs that a check of completed results looks at.
pub open spec fn paired(calls: Seq<ToolCallRequest>, results: Seq<PhiToolResultMessage>) -> int {
    if calls.len() < results.len() { calls.len() as int } else { results.len() as int }
}

/// `"{context} result {index} does not match its tool call id"`.
pub open spec fn mismatch_detail(context: Seq<char>, index: nat) -> Seq<char> {
    context + " result "@ + decimal_chars(index) + " does not match its tool call id"@
}

/// `"failed tool turn has {results} completed results for {calls} tool calls"`.
pub open spec fn missing_request_detail(results: nat, calls: nat) -> Seq<char> {
    "failed tool turn has "@ + decimal_chars(results) + " completed results for "@ + decimal_chars(calls) + " tool calls"@
}

/// Checks that each completed result carries the id of the call at its place.
pub fn validate_completed_tool_results<M>(
    assistant: &PhiAssistantMessage,
    pending_results: &Vec<PhiToolResultMessage>,
    context: &str,
) -> (checked: Result<(), PhiAgentRuntimeError<M>>)
    ensures
        match checked {
            Ok(()) => results_match_calls(assistant.tool_calls@, pending_results@, paired(assistant.tool_calls@, pending_results@)),
            Err(error) => exists|k: int|
                0 <= k < paired(assistant.tool_calls@, pending_results@) && results_match_calls(
                    assistant.tool_calls@,
                    pending_results@,
                    k,
                ) && !result_matches_call(#[trigger] pending_results@[k], assistant.tool_calls@[k])
                    && error == PhiAgentRuntimeError::<M>::Session { detail: error->Session_detail }
                    && error->Session_detail@ == mismatch_detail(context@, k as nat),
        },
{
    let calls = &assistant.tool_calls;
    let mut i: usize = 0;
    while i < pending_results.len() && i < calls.len()
        invariant
            i <= pending_results@.len(),
            i <= calls@.len(),
            calls@ == assistant.tool_calls@,
            results_match_calls(calls@, pending_results@, i as int),
        decreases pending_results.len() - i,
    {
        let expected = calls[i].result_id();
        let matches = match &pending_results[i].id {
            Some(id) => *id == *expected,
            None => false,
        };
        if !matches {
            let mut detail = context.to_owned();
            detail.append(" result ");
            push_decimal(&mut detail, i as u64);
            detail.append(" does not match its tool call id");
            let error = PhiAgentRuntimeError::Session { detail };
            assert(!result_matches_call(pending_results@[i as int], calls@[i as int]));
            return Err(error);
        }
        i += 1;
    }
    Ok(())
}

impl<M> PhiFailedToolTurn<M> {
    /// The index of the call that failed.
    pub open spec fn failed_index(self) -> int {
        self.pending_results@.len() as int
    }

    /// A turn is well formed when it names a failed call and each completed
    /// result belongs to the call at its place.
    pub open spec fn is_valid(self) -> bool {
        &&& self.failed_index() < self.assistant.tool_calls@.len()
        &&& results_match_calls(self.assistant.tool_calls@, self.pending_results@, self.failed_index())
    }

    /// The failed turn, or the session error that says why the parts do not
    /// make one.
    pub fn new(pending_messages: Vec<M>, assistant: PhiAssistantMessage, pending_results: Vec<PhiToolResultMessage>) -> (turn:
        Result<Self, PhiAgentRuntimeError<M>>)
        ensures
            match turn {
                Ok(turn) => turn.is_valid() && turn.pending_messages@ == pending_messages@ && turn.assistant == assistant
                    && turn.pending_results@ == pending_results@,
                Err(error) => error is Session && !(PhiFailedToolTurn { pending_messages, assistant, pending_results }).is_valid()
                    && (pending_results@.len() >= assistant.tool_calls@.len() ==> error->Session_detail@ == missing_request_detail(
                    pending_results@.len(),
                    assistant.tool_calls@.len(),
                )),
            },
    {
        let turn = PhiFailedToolTurn { pending_messages, assistant, pending_results };
        match turn.validate() {
            Ok(()) => Ok(turn),
            Err(error) => Err(error),
        }
    }

    pub fn pending_messages(&self) -> (messages: &[M])
        ensures
            messages@ == self.pending_messages@,
    {
        self.pending_messages.as_slice()
    }

    pub fn assistant(&self) -> (assistant: &PhiAssistantMessage)
        ensures
            *assistant == self.assistant,
    {
        &self.assistant
    }

    pub fn pending_results(&self) -> (results: &[PhiToolResultMessage])
        ensures
            results@ == self.pending_results@,
    {
        self.pending_results.as_slice()
    }

    /// The call that failed: the one after the completed ones.
    pub fn failed_request(&self) -> (request: Option<&ToolCallRequest>)
        ensures
            match request {
                Some(request) => self.failed_index() < self.assistant.tool_calls@.len() && *request
                    == self.assistant.tool_calls@[self.failed_index()],
                None => self.failed_index() >= self.assistant.tool_calls@.len(),
            },
    {
        let index = self.pending_results.len();
        if index < self.assistant.tool_calls.len() {
            Some(&self.assistant.tool_calls[index])
        } else {
            None
        }
    }

    /// The calls after the failed one, which were never made.
    pub fn remaining_requests(&self) -> (requests: &[ToolCallRequest])
        ensures
            requests@ == if self.failed_index() + 1 <= self.assistant.tool_calls@.len() {
                self.assistant.tool_calls@.skip(self.failed_index() + 1)
            } else {
                Seq::empty()
            },
    {
        let calls = self.assistant.tool_calls.as_slice();
        let completed = self.pending_results.len();
        if completed < calls.len() {
            let (_, rest) = calls.split_at(completed + 1);
            assert(rest@ =~= self.assistant.tool_calls@.skip(self.failed_index() + 1));
            rest
        } else {
            let rest: &[ToolCallRequest] = &[];
            assert(rest@ =~= Seq::<ToolCallRequest>::empty());
            rest
        }
    }

    /// Checks that the turn names a failed call and that its completed results
    /// belong to their calls.
    pub fn validate(&self) -> (checked: Result<(), PhiAgentRuntimeError<M>>)
        ensures
            checked is Ok <==> self.is_valid(),
            checked matches Err(error) ==> error is Session,
            self.failed_index() >= self.assistant.tool_calls@.len() ==> (checked matches Err(error) && error->Session_detail@
                == missing_request_detail(self.pending_results@.len(), self.assistant.tool_calls@.len())),
            self.failed_index() < self.assistant.tool_calls@.len() ==> (checked matches Err(error) ==> exists|k: int|
                0 <= k < self.failed_index() && results_match_calls(self.assistant.tool_calls@, self.pending_results@, k)
                    && !result_matches_call(#[trigger] self.pending_results@[k], self.assistant.tool_calls@[k])
                    && error->Session_detail@ == mismatch_detail("failed tool turn"@, k as nat)),
    {
        if self.failed_request().is_none() {
            let mut detail = "failed tool turn has ".to_owned();
            push_decimal(&mut detail, self.pending_results.len() as u64);
            detail.append(" completed results for ");
            push_decimal(&mut detail, self.assistant.tool_calls.len() as u64);
            detail.append(" tool calls");
            return Err(PhiAgentRuntimeError::Session { detail });
        }
        let checked = validate_completed_tool_results(&self.assistant, &self.pending_results, "failed tool turn");
        proof {
            reveal_strlit("failed tool turn");
            assert(paired(self.assistant.tool_calls@, self.pending_results@) == self.failed_index());
            if checked is Err {
                let k = choose|k: int|
                    0 <= k < paired(self.assistant.tool_calls@, self.pending_results@) && results_match_calls(
                        self.assistant.tool_calls@,
                        self.pending_results@,
                        k,
                    ) && !result_matches_call(#[trigger] self.pending_results@[k], self.assistant.tool_calls@[k])
                        && checked->Err_0 == PhiAgentRuntimeError::<M>::Session { detail: checked->Err_0->Session_detail }
                        && checked->Err_0->Session_detail@ == mismatch_detail("failed tool turn"@, k as nat);
                assert(!results_match_calls(self.assistant.tool_calls@, self.pending_results@, self.failed_index()));
            }
        }
        checked
    }
}

/// A failure of agent step evaluation, with what a recovery needs to resume.
#[allow(inconsistent_fields)]
pub enum PhiAgentRuntimeError<M> {
    RequestCompact { detail: String },
    ContextExceededLimit { detail: String },
    ProviderRequest { detail: String },
    ProviderResponse { detail: String },
    Module { detail: String },
    Home { detail: String },
    ToolError { detail: serde_json::Value, turn: Box<PhiFailedToolTurn<M>> },
    ToolNotFound { detail: String, turn: Box<PhiFailedToolTurn<M>> },
    ModelCandidateRejected { detail: String },
    Session { detail: String },
}

impl<M> PhiAgentRuntimeError<M> {
    pub fn request_compact(detail: String) -> (error: Self)
        ensures
            error == (PhiAgentRuntimeError::<M>::RequestCompact { detail }),
    {
        PhiAgentRuntimeError::RequestCompact { detail }
    }

    pub fn context_exceeded_limit(detail: String) -> (error: Self)
        ensures
            error == (PhiAgentRuntimeError::<M>::ContextExceededLimit { detail }),
    {
        PhiAgentRuntimeError::ContextExceededLimit { detail }
    }

    pub fn provider_request(detail: String) -> (error: Self)
        ensures
            error == (PhiAgentRuntimeError::<M>::ProviderRequest { detail }),
    {
        PhiAgentRuntimeError::ProviderRequest { detail }
    }

    pub fn provider_response(detail: String) -> (error: Self)
        ensures
            error == (PhiAgentRuntimeError::<M>::ProviderResponse { detail }),
    {
        PhiAgentRuntimeError::ProviderResponse { detail }
    }

    pub fn module(detail: String) -> (error: Self)
        ensures
            error == (PhiAgentRuntimeError::<M>::Module { detail }),
    {
        PhiAgentRuntimeError::Module { detail }
    }

    pub fn home(detail: String) -> (error: Self)
        ensures
            error == (PhiAgentRuntimeError::<M>::Home { detail }),
    {
        PhiAgentRuntimeError::Home { detail }
    }

    pub fn tool_error(detail: serde_json::Value, turn: PhiFailedToolTurn<M>) -> (error: Self)
        ensures
            error == (PhiAgentRuntimeError::<M>::ToolError { detail, turn: Box::new(turn) }),
    {
        PhiAgentRuntimeError::ToolError { detail, turn: Box::new(turn) }
    }

    pub fn tool_not_found(detail: String, turn: PhiFailedToolTurn<M>) -> (error: Self)
        ensures
            error == (PhiAgentRuntimeError::<M>::ToolNotFound { detail, turn: Box::new(turn) }),
    {
        PhiAgentRuntimeError::ToolNotFound { detail, turn: Box::new(turn) }
    }

    pub fn model_candidate_rejected(detail: String) -> (error: Self)
        ensures
            error == (PhiAgentRuntimeError::<M>::ModelCandidateRejected { detail }),
    {
        PhiAgentRuntimeError::ModelCandidateRejected { detail }
    }

    pub fn session(detail: String) -> (error: Self)
        ensures
            error == (PhiAgentRuntimeError::<M>::Session { detail }),
    {
        PhiAgentRuntimeError::Session { detail }
    }

    /// The failed tool turn the error carries, for the two tool failures.
    pub open spec fn turn_spec(self) -> Option<PhiFailedToolTurn<M>> {
        match self {
            PhiAgentRuntimeError::ToolError { turn, .. } => Some(*turn),
            PhiAgentRuntimeError::ToolNotFound { turn, .. } => Some(*turn),
            _ => None,
        }
    }

    /// What the error says: its detail, or for a failed tool a fixed text.
    pub open spec fn detail_spec(self) -> Seq<char> {
        match self {
            PhiAgentRuntimeError::RequestCompact { detail } => detail@,
            PhiAgentRuntimeError::ContextExceededLimit { detail } => detail@,
            PhiAgentRuntimeError::ProviderRequest { detail } => detail@,
            PhiAgentRuntimeError::ProviderResponse { detail } => detail@,
            PhiAgentRuntimeError::Module { detail } => detail@,
            PhiAgentRuntimeError::Home { detail } => detail@,
            PhiAgentRuntimeError::ToolError { .. } => "tool execution failed"@,
            PhiAgentRuntimeError::ToolNotFound { detail, .. } => detail@,
            PhiAgentRuntimeError::ModelCandidateRejected { detail } => detail@,
            PhiAgentRuntimeError::Session { detail } => detail@,
        }
    }

    pub fn detail(&self) -> (detail: &str)
        ensures
            detail@ == self.detail_spec(),
    {
        match self {
            PhiAgentRuntimeError::RequestCompact { detail } => detail.as_str(),
            PhiAgentRuntimeError::ContextExceededLimit { detail } => detail.as_str(),
            PhiAgentRuntimeError::ProviderRequest { detail } => detail.as_str(),
            PhiAgentRuntimeError::ProviderResponse { detail } => detail.as_str(),
            PhiAgentRuntimeError::Module { detail } => detail.as_str(),
            PhiAgentRuntimeError::Home { detail } => detail.as_str(),
            PhiAgentRuntimeError::ToolError { .. } => {
                let text = "tool execution failed";
                proof {
                    reveal_strlit("tool execution failed");
                }
                text
            },
            PhiAgentRuntimeError::ToolNotFound { detail, .. } => detail.as_str(),
            PhiAgentRuntimeError::ModelCandidateRejected { detail } => detail.as_str(),
            PhiAgentRuntimeError::Session { detail } => detail.as_str(),
        }
    }

    pub fn tool_error_detail(&self) -> (detail: Option<&serde_json::Value>)
        ensures
            match self {
                PhiAgentRuntimeError::ToolError { detail: d, .. } => detail == Some(d),
                _ => detail is None,
            },
    {
        match self {
            PhiAgentRuntimeError::ToolError { detail, .. } => Some(detail),
            _ => None,
        }
    }

    fn turn(&self) -> (turn: Option<&PhiFailedToolTurn<M>>)
        ensures
            match self.turn_spec() {
                Some(t) => turn == Some(&t),
                None => turn is None,
            },
    {
        match self {
            PhiAgentRuntimeError::ToolError { turn, .. } => Some(&**turn),
            PhiAgentRuntimeError::ToolNotFound { turn, .. } => Some(&**turn),
            _ => None,
        }
    }

    pub fn assistant(&self) -> (assistant: Option<&PhiAssistantMessage>)
        ensures
            match self.turn_spec() {
                Some(turn) => assistant == Some(&turn.assistant),
                None => assistant is None,
            },
    {
        match self.turn() {
            Some(turn) => Some(turn.assistant()),
            None => None,
        }
    }

    pub fn pending_results(&self) -> (results: Option<&[PhiToolResultMessage]>)
        ensures
            match self.turn_spec() {
                Some(turn) => results matches Some(r) && r@ == turn.pending_results@,
                None => results is None,
            },
    {
        match self.turn() {
            Some(turn) => Some(turn.pending_results()),
            None => None,
        }
    }

    /// The call that failed, for a tool failure whose turn names one.
    pub fn tool_request(&self) -> (request: Option<&ToolCallRequest>)
        ensures
            match self.turn_spec() {
                Some(turn) => match request {
                    Some(request) => turn.failed_index() < turn.assistant.tool_calls@.len() && *request
                        == turn.assistant.tool_calls@[turn.failed_index()],
                    None => turn.failed_index() >= turn.assistant.tool_calls@.len(),
                },
                None => request is None,
            },
    {
        match self.turn() {
            Some(turn) => turn.failed_request(),
            None => None,
        }
    }

    pub fn pending_messages(&self) -> (messages: Option<&[M]>)
        ensures
            match self.turn_spec() {
                Some(turn) => messages matches Some(m) && m@ == turn.pending_messages@,
                None => messages is None,
            },
    {
        match self.turn() {
            Some(turn) => Some(turn.pending_messages()),
            None => None,
        }
    }

    pub fn remaining_tool_requests(&self) -> (requests: Option<&[ToolCallRequest]>)
        ensures
            match self.turn_spec() {
                Some(turn) => requests matches Some(r) && r@ == if turn.failed_index() + 1 <= turn.assistant.tool_calls@.len() {
                    turn.assistant.tool_calls@.skip(turn.failed_index() + 1)
                } else {
                    Seq::empty()
                },
                None => requests is None,
            },
    {
        match self.turn() {
            Some(turn) => Some(turn.remaining_requests()),
            None => None,
        }
    }
}

/// The error that callers of the library see: a message, nothing more.
pub struct PhiError {
    detail: String,
}

impl PhiError {
    pub fn message(detail: String) -> (error: Self)
        ensures
            error.detail_spec() == detail@,
    {
        PhiError { detail }
    }

    /// The user-facing form of a runtime error: its detail.
    pub fn from_runtime_error<M>(error: PhiAgentRuntimeError<M>) -> (converted: Self)
        ensures
            converted.detail_spec() == error.detail_spec(),
    {
        let detail = error.detail().to_owned();
        PhiError { detail }
    }

    pub closed spec fn detail_spec(&self) -> Seq<char> {
        self.detail@
    }

    pub fn detail(&self) -> (detail: &str)
        ensures
            detail@ == self.detail_spec(),
    {
        self.detail.as_str()
    }
}

} // verus!

//! The decisions of the step interpreter: which transition a step takes, what
//! a model response commits, and how a transition changes the session frame.
use vstd::prelude::*;

use crate::executor::tool_call::ToolCallRequest;
use crate::expr::{PhiExprDelta, PhiStepExpr};

verus! {

/// How a step evaluation ends, once its asynchronous work is done.
pub enum StepBounce<S> {
    /// A new frame is created from the current one, with this step.
    CreateNextStep(S),
    /// The current frame's step is replaced by this one.
    ReplaceBaseStep(S),
    /// Evaluation failed; this failed step is committed as a new frame.
    RuntimeFailed(S),
    /// The current frame is dropped in favour of its parent.
    RollbackStep,
    /// Nothing changes.
    KeepBaseStep,
}

/// Applies a bounce to the current frame. A created or replaced step takes
/// the gathered delta with it (a replaced step on top of its own delta); a
/// failure, a rollback and a kept step drop it.
pub fn apply_bounce<S, M, V>(base: PhiStepExpr<S, M, V>, delta: PhiExprDelta<M, V>, bounce: StepBounce<S>) -> (next:
    PhiStepExpr<S, M, V>)
    ensures
        match bounce {
            StepBounce::CreateNextStep(step) => next == base.next_frame(step, delta),
            StepBounce::ReplaceBaseStep(step) => next.step == step && next.expr == base.expr && next.delta.history@
                == base.delta.history@ + delta.history@ && next.delta.effects@ == base.delta.effects@.union_prefer_right(
                delta.effects@,
            ),
            StepBounce::RuntimeFailed(step) => next.step == step && next.expr == Some(Box::new(base)) && next.delta.history@.len()
                == 0 && next.delta.effects@.dom() == Set::<Seq<char>>::empty(),
            StepBounce::RollbackStep => next == base.rolled_back(),
            StepBounce::KeepBaseStep => next == base,
        },
{
    match bounce {
        StepBounce::CreateNextStep(step) => base.create_next_step(step, delta),
        StepBounce::ReplaceBaseStep(step) => base.replace_base_step(step, delta),
        StepBounce::RuntimeFailed(step) => PhiStepExpr::branch(base, step, PhiExprDelta::new()),
        StepBounce::RollbackStep => base.rollback(),
        StepBounce::KeepBaseStep => base,
    }
}

/// The kinds of step the interpreter evaluates.
pub enum StepKind {
    RequestCompact,
    RequestProvider,
    RequestExecutor,
    TurnEnd,
    Failed,
    Compacted,
}

/// What the interpreter does with the base step once every module has let it
/// through.
pub enum CoreStepAction {
    /// Ask the provider to compact the history.
    Compact,
    /// Send the history to the model.
    RequestProvider,
    /// Run the pending tool calls.
    ExecuteTools,
    /// Create a fresh model request after a finished turn.
    ResumeAfterTurnEnd,
    /// Create a model request like the one that led to the compaction.
    ResumeAfterCompaction,
    /// Leave a failed step to the recovery modules.
    KeepFailed,
}

/// What the interpreter does with a base step of each kind.
pub fn core_step_action(kind: &StepKind) -> (action: CoreStepAction)
    ensures
        action is Compact <==> *kind is RequestCompact,
        action is RequestProvider <==> *kind is RequestProvider,
        action is ExecuteTools <==> *kind is RequestExecutor,
        action is ResumeAfterTurnEnd <==> *kind is TurnEnd,
        action is KeepFailed <==> *kind is Failed,
        action is ResumeAfterCompaction <==> *kind is Compacted,
{
    match kind {
        StepKind::RequestCompact => CoreStepAction::Compact,
        StepKind::RequestProvider => CoreStepAction::RequestProvider,
        StepKind::RequestExecutor => CoreStepAction::ExecuteTools,
        StepKind::TurnEnd => CoreStepAction::ResumeAfterTurnEnd,
        StepKind::Failed => CoreStepAction::KeepFailed,
        StepKind::Compacted => CoreStepAction::ResumeAfterCompaction,
    }
}

/// The detail of the model request created after a finished turn.
pub fn turn_end_resume_detail() -> (detail: &'static str)
    ensures
        detail@ == "resuming from turn-end step"@,
{
    proof {
        reveal_strlit("resuming from turn-end step");
    }
    "resuming from turn-end step"
}

/// One message of a model response, as the interpreter sorts it.
pub enum ResponseItem<M> {
    /// A tool call the model made.
    ToolCall { id: Option<String>, name: String, arguments: serde_json::Value },
    /// An assistant message.
    Assistant(M),
    /// Any other message.
    Other(M),
}

/// The request for a tool call message: filed under the message's id, or
/// under the tool's name where the message has none.
pub open spec fn call_request(id: Option<String>, name: String, arguments: serde_json::Value) -> ToolCallRequest {
    ToolCallRequest {
        id: match id {
            Some(id) => id,
            None => name,
        },
        call_id: id,
        name,
        arguments,
    }
}

/// The tool calls of a response, in order.
pub open spec fn response_tool_calls<M>(items: Seq<ResponseItem<M>>) -> Seq<ToolCallRequest>
    decreases items.len(),
{
    if items.len() == 0 {
        Seq::empty()
    } else {
        let rest = response_tool_calls(items.drop_last());
        match items.last() {
            ResponseItem::ToolCall { id, name, arguments } => rest.push(call_request(id, name, arguments)),
            _ => rest,
        }
    }
}

/// The messages of a response that are not tool calls, in order.
pub open spec fn response_messages<M>(items: Seq<ResponseItem<M>>) -> Seq<M>
    decreases items.len(),
{
    if items.len() == 0 {
        Seq::empty()
    } else {
        let rest = response_messages(items.drop_last());
        match items.last() {
            ResponseItem::Assistant(message) => rest.push(message),
            ResponseItem::Other(message) => rest.push(message),
            _ => rest,
        }
    }
}

/// The positions, among `response_messages`, of the assistant messages.
pub open spec fn response_assistants<M>(items: Seq<ResponseItem<M>>) -> Seq<usize>
    decreases items.len(),
{
    if items.len() == 0 {
        Seq::empty()
    } else {
        let rest = response_assistants(items.drop_last());
        match items.last() {
            ResponseItem::Assistant(_) => rest.push(response_messages(items.drop_last()).len() as usize),
            _ => rest,
        }
    }
}

/// Whether the model said that its turn goes on.
pub enum PhiModelTurnState {
    Continue,
    Complete,
}

/// What a model response leads to.
pub enum ProviderOutcome<M> {
    /// Tool calls are pending: a step that runs them, with the messages that
    /// wait for their results.
    RequestExecutor { detail: String, pending_messages: Vec<M>, tool_calls: Vec<ToolCallRequest> },
    /// The messages are committed in order; the assistant messages among them
    /// (by position) are announced as committed model responses; then the
    /// next step is a model request (`continue_turn`) or the end of the turn.
    Commit { messages: Vec<M>, assistants: Vec<usize>, continue_turn: bool, detail: String },
}

/// What a model response leads to, given the messages that modules appended
/// to the request history (`request_tail`) and the response itself.
pub open spec fn provider_outcome_spec<M>(
    request_tail: Seq<M>,
    items: Seq<ResponseItem<M>>,
    turn_state: PhiModelTurnState,
    outcome: ProviderOutcome<M>,
) -> bool {
    if response_tool_calls(items).len() > 0 {
        outcome matches ProviderOutcome::RequestExecutor { detail, pending_messages, tool_calls } && detail@
            == "tool execution is pending"@ && pending_messages@ == request_tail + response_messages(items) && tool_calls@
            == response_tool_calls(items)
    } else {
        outcome matches ProviderOutcome::Commit { messages, assistants, continue_turn, detail } && messages@ == request_tail
            + response_messages(items) && assistants@ == response_assistants(items).map_values(
            |i: usize| (i + request_tail.len()) as usize,
        ) && continue_turn == (turn_state is Continue) && detail@ == if turn_state is Continue {
            "provider response requires another model request"@
        } else {
            "model response committed; no tool execution is pending"@
        }
    }
}

/// Sorts a model response into tool calls and messages and decides what it
/// leads to.
pub fn plan_provider_response<M>(request_tail: Vec<M>, items: Vec<ResponseItem<M>>, turn_state: PhiModelTurnState) -> (outcome:
    ProviderOutcome<M>)
    requires
        request_tail@.len() + items@.len() <= usize::MAX,
    ensures
        provider_outcome_spec(request_tail@, items@, turn_state, outcome),
{
    let ghost all_items = items@;
    let ghost tail = request_tail@;
    let mut tool_calls: Vec<ToolCallRequest> = Vec::new();
    let mut messages: Vec<M> = request_tail;
    let mut assistants: Vec<usize> = Vec::new();
    let mut rest = items;
    let ghost n = all_items.len();
    while rest.len() > 0
        invariant
            n == all_items.len(),
            rest@.len() <= n,
            rest@ == all_items.skip(n - rest@.len()),
            tool_calls@ == response_tool_calls(all_items.take(n - rest@.len())),
            messages@ == tail + response_messages(all_items.take(n - rest@.len())),
            assistants@ == response_assistants(all_items.take(n - rest@.len())).map_values(
                |i: usize| (i + tail.len()) as usize,
            ),
            tail.len() + n <= usize::MAX,
            response_messages(all_items.take(n - rest@.len())).len() <= n - rest@.len(),
        decreases rest.len(),
    {
        let ghost done = (n - rest@.len()) as int;
        let ghost before = all_items.take(done);
        let ghost after = all_items.take(done + 1);
        let item = rest.remove(0);
        proof {
            assert(item == all_items[done]);
            assert(rest@ =~= all_items.skip(done + 1));
            assert(after.drop_last() =~= before);
            assert(after.last() == item);
        }
        match item {
            ResponseItem::ToolCall { id, name, arguments } => {
                let request_id = match &id {
                    Some(id) => id.clone(),
                    None => name.clone(),
                };
                tool_calls.push(ToolCallRequest { id: request_id, call_id: id, name, arguments });
                proof {
                    assert(assistants@ =~= response_assistants(after).map_values(|i: usize| (i + tail.len()) as usize));
                }
            },
            ResponseItem::Assistant(message) => {
                let position = messages.len();
                messages.push(message);
                assistants.push(position);
                proof {
                    assert(position == response_messages(before).len() + tail.len());
                    assert(assistants@ =~= response_assistants(after).map_values(|i: usize| (i + tail.len()) as usize));
                    assert(messages@ =~= tail + response_messages(after));
                }
            },
            ResponseItem::Other(message) => {
                messages.push(message);
                proof {
                    assert(assistants@ =~= response_assistants(after).map_values(|i: usize| (i + tail.len()) as usize));
                    assert(messages@ =~= tail + response_messages(after));
                }
            },
        }
    }
    proof {
        assert(all_items.take(n as int) =~= all_items);
    }
    if tool_calls.len() > 0 {
        let pending_messages = messages;
        proof {
            reveal_strlit("tool execution is pending");
        }
        ProviderOutcome::RequestExecutor { detail: "tool execution is pending".to_owned(), pending_messages, tool_calls }
    } else {
        let continue_turn = match turn_state {
            PhiModelTurnState::Continue => true,
            PhiModelTurnState::Complete => false,
        };
        let detail = if continue_turn {
            "provider response requires another model request".to_owned()
        } else {
            "model response committed; no tool execution is pending".to_owned()
        };
        proof {
            reveal_strlit("provider response requires another model request");
            reveal_strlit("model response committed; no tool execution is pending");
        }
        ProviderOutcome::Commit { messages, assistants, continue_turn, detail }
    }
}

/// The detail of the model request that replaces an executor step with no
/// tool call left.
pub fn no_pending_tool_detail() -> (detail: &'static str)
    ensures
        detail@ == "no tool execution is pending"@,
{
    proof {
        reveal_strlit("no tool execution is pending");
    }
    "no tool execution is pending"
}

/// The tool call to run next, and those that wait after it.
pub fn next_tool_call(tool_calls: Vec<ToolCallRequest>) -> (next: Option<(ToolCallRequest, Vec<ToolCallRequest>)>)
    ensures
        match next {
            Some((first, rest)) => tool_calls@.len() > 0 && first == tool_calls@[0] && rest@ == tool_calls@.skip(1),
            None => tool_calls@.len() == 0,
        },
{
    let mut rest = tool_calls;
    if rest.len() == 0 {
        return None;
    }
    let first = rest.remove(0);
    Some((first, rest))
}

/// Whether `same`, called on `a` and `b`, can answer `true`.
pub open spec fn relates<M, F: Fn(&M, &M) -> bool>(same: F, a: M, b: M) -> bool {
    same.ensures((&a, &b), true)
}

/// A relation that can be called on every pair and always gives one answer.
pub open spec fn is_message_relation<M, F: Fn(&M, &M) -> bool>(same: F) -> bool {
    &&& forall|a: &M, b: &M| #[trigger] same.requires((a, b))
    &&& forall|a: &M, b: &M, x: bool, y: bool| #[trigger] same.ensures((a, b), x) && #[trigger] same.ensures((a, b), y) ==> x == y
}

/// Whether `updated` starts with the messages of `base`.
pub open spec fn extends_history<M, F: Fn(&M, &M) -> bool>(base: Seq<M>, updated: Seq<M>, same: F) -> bool {
    base.len() <= updated.len() && forall|i: int| 0 <= i < base.len() ==> relates(same, #[trigger] base[i], updated[i])
}

/// The messages that `updated` appends to `base`: none unless `updated` starts
/// with all of `base`.
pub fn appended_history_tail<M, F: Fn(&M, &M) -> bool>(base: &Vec<M>, updated: Vec<M>, same: &F) -> (tail: Vec<M>)
    requires
        is_message_relation(*same),
    ensures
        tail@ == if extends_history(base@, updated@, *same) {
            updated@.skip(base@.len() as int)
        } else {
            Seq::empty()
        },
{
    if updated.len() < base.len() {
        return Vec::new();
    }
    let mut i: usize = 0;
    while i < base.len()
        invariant
            i <= base@.len() <= updated@.len(),
            is_message_relation(*same),
            forall|k: int| 0 <= k < i ==> relates(*same, #[trigger] base@[k], updated@[k]),
        decreases base.len() - i,
    {
        let equal = same(&base[i], &updated[i]);
        if !equal {
            assert(!relates(*same, base@[i as int], updated@[i as int]));
            return Vec::new();
        }
        i += 1;
    }
    let mut updated = updated;
    let tail = updated.split_off(base.len());
    tail
}

/// A history appends nothing to itself, under a relation that relates each
/// message to itself.
pub proof fn history_appends_nothing_to_itself<M, F: Fn(&M, &M) -> bool>(history: Seq<M>, same: F)
    requires
        forall|m: M| #[trigger] relates(same, m, m),
    ensures
        extends_history(history, history, same),
        history.skip(history.len() as int) == Seq::<M>::empty(),
{
    assert forall|i: int| 0 <= i < history.len() implies relates(same, #[trigger] history[i], history[i]) by {}
    assert(history.skip(history.len() as int) =~= Seq::<M>::empty());
}

/// Under a relation that holds only of equal messages, the base followed by
/// the appended tail is the updated history.
pub proof fn appended_tail_completes_base<M, F: Fn(&M, &M) -> bool>(base: Seq<M>, updated: Seq<M>, same: F)
    requires
        forall|a: M, b: M| #[trigger] relates(same, a, b) ==> a == b,
        extends_history(base, updated, same),
    ensures
        base + updated.skip(base.len() as int) == updated,
{
    assert forall|i: int| 0 <= i < base.len() implies base[i] == updated[i] by {
        assert(relates(same, base[i], updated[i]));
    }
    assert(base + updated.skip(base.len() as int) =~= updated);
}

} // verus!

//! Rejecting model responses that repeat earlier reasoning, and retrying them
//! up to a budget.
pub mod reasoning;
pub mod similarity;

use vstd::prelude::*;

use crate::error::PhiAgentRuntimeError;
use crate::text::{decimal_chars, push_decimal};

verus! {

/// Whether a step failed because a loop guard rejected the model's candidate.
/// `failure` is the step's error, `None` for a step that did not fail.
pub fn is_loop_guard_failed_step<M>(failure: Option<&PhiAgentRuntimeError<M>>) -> (rejected: bool)
    ensures
        rejected == (failure matches Some(error) && error is ModelCandidateRejected),
{
    match failure {
        Some(PhiAgentRuntimeError::ModelCandidateRejected { .. }) => true,
        _ => false,
    }
}

pub const DEFAULT_LOOPGUARD_WINDOW: usize = 5;
pub const DEFAULT_LOOPGUARD_MAX_RETRIES: usize = 5;
pub const DEFAULT_LOOPGUARD_REASONING_NGRAM_SIZE: usize = 4;
pub const DEFAULT_LOOPGUARD_REASONING_MIN_CHARS: usize = 300;

pub fn default_loopguard_window() -> (window: usize)
    ensures
        window == DEFAULT_LOOPGUARD_WINDOW,
{
    DEFAULT_LOOPGUARD_WINDOW
}

pub fn default_loopguard_max_retries() -> (retries: usize)
    ensures
        retries == DEFAULT_LOOPGUARD_MAX_RETRIES,
{
    DEFAULT_LOOPGUARD_MAX_RETRIES
}

pub fn default_loopguard_reasoning_ngram_size() -> (size: usize)
    ensures
        size == DEFAULT_LOOPGUARD_REASONING_NGRAM_SIZE,
{
    DEFAULT_LOOPGUARD_REASONING_NGRAM_SIZE
}

pub fn default_loopguard_reasoning_min_chars() -> (chars: usize)
    ensures
        chars == DEFAULT_LOOPGUARD_REASONING_MIN_CHARS,
{
    DEFAULT_LOOPGUARD_REASONING_MIN_CHARS
}

#[derive(Clone, Copy, PartialEq, Eq, Structural)]
pub struct LoopGuardProbe {
    pub active: bool,
    pub rejected_attempts: usize,
    pub max_retries: usize,
    pub boundary_matches: bool,
    pub will_intervene: bool,
    pub exhausted: bool,
    pub next_rejected_attempts: Option<usize>,
}

/// A repetition that a detector found.
pub struct LoopDetection {
    pub detector: String,
    pub detail: String,
}

/// A detector of repeated model output. It sees the history a model request
/// is built on, is asked about each candidate response, and learns each
/// response once it is committed.
pub trait LoopDetector<M> {
    fn initialize(&mut self, messages: &Vec<M>, window: usize);

    fn inspect_candidate(&mut self, message: &M, window: usize) -> Option<LoopDetection>;

    fn commit(&mut self, message: &M, window: usize);
}

/// The retry budget of the loop guard and the window of committed responses
/// that its detectors compare against.
pub struct LoopGuardPolicy {
    pub window: usize,
    pub max_retries: usize,
}

/// What the loop guard does at a step boundary.
#[derive(Clone, Copy, PartialEq, Eq, Structural)]
pub enum LoopGuardIntervention {
    Pass,
    /// The budget is spent: drop the rejection count and request a clean completion.
    Exhausted,
    /// Record the rejection count and request the completion again.
    Retry { rejected_attempts: usize },
}

/// The state of the delta's rejection count binding.
#[derive(Clone, Copy, PartialEq, Eq, Structural)]
pub enum DeltaBinding {
    Value,
    Unset,
    Missing,
}

/// What happens to the rejection count when a step is created or replaced.
#[derive(Clone, Copy, PartialEq, Eq, Structural)]
pub enum RejectionCarry {
    Keep,
    Bind(usize),
    Unbind,
}

impl LoopGuardPolicy {
    pub fn new(window: usize, max_retries: usize) -> (policy: Self)
        ensures
            policy.window == window,
            policy.max_retries == max_retries,
    {
        LoopGuardPolicy { window, max_retries }
    }

    pub open spec fn spec_probe(&self, rejected: Option<usize>, rejected_failure: bool, has_complete_ancestor: bool) -> LoopGuardProbe {
        let rejected_attempts = match rejected {
            Some(a) => a,
            None => 0,
        };
        let boundary_matches = rejected_failure && has_complete_ancestor;
        let exhausted = boundary_matches && rejected_attempts >= self.max_retries;
        LoopGuardProbe {
            active: rejected_attempts > 0,
            rejected_attempts,
            max_retries: self.max_retries,
            boundary_matches,
            will_intervene: boundary_matches && !exhausted,
            exhausted,
            next_rejected_attempts: if boundary_matches { Some((rejected_attempts + 1) as usize) } else { None },
        }
    }

    /// The loop guard's state at a step boundary. `rejected` is the count recorded
    /// on the nearest completion-request ancestor; `rejected_failure` says whether
    /// the current step failed because the loop guard rejected the candidate.
    pub fn probe(&self, rejected: Option<usize>, rejected_failure: bool, has_complete_ancestor: bool) -> (probe: LoopGuardProbe)
        requires
            rejected matches Some(a) ==> a < usize::MAX,
        ensures
            probe == self.spec_probe(rejected, rejected_failure, has_complete_ancestor),
    {
        let rejected_attempts = match rejected {
            Some(a) => a,
            None => 0,
        };
        let boundary_matches = rejected_failure && has_complete_ancestor;
        let exhausted = boundary_matches && rejected_attempts >= self.max_retries;
        LoopGuardProbe {
            active: rejected_attempts > 0,
            rejected_attempts,
            max_retries: self.max_retries,
            boundary_matches,
            will_intervene: boundary_matches && !exhausted,
            exhausted,
            next_rejected_attempts: if boundary_matches { Some(rejected_attempts + 1) } else { None },
        }
    }

    pub open spec fn spec_intervention(probe: LoopGuardProbe) -> LoopGuardIntervention {
        if !probe.boundary_matches {
            LoopGuardIntervention::Pass
        } else if probe.exhausted {
            LoopGuardIntervention::Exhausted
        } else {
            match probe.next_rejected_attempts {
                Some(n) => LoopGuardIntervention::Retry { rejected_attempts: n },
                None => LoopGuardIntervention::Pass,
            }
        }
    }

    pub fn intervention(&self, probe: &LoopGuardProbe) -> (decision: LoopGuardIntervention)
        ensures
            decision == Self::spec_intervention(*probe),
    {
        if !probe.boundary_matches {
            LoopGuardIntervention::Pass
        } else if probe.exhausted {
            LoopGuardIntervention::Exhausted
        } else {
            match probe.next_rejected_attempts {
                Some(n) => LoopGuardIntervention::Retry { rejected_attempts: n },
                None => LoopGuardIntervention::Pass,
            }
        }
    }

    pub fn exhausted_warning(&self) -> (warning: String)
        ensures
            warning@ == "loop guard budget exhausted after "@ + decimal_chars(self.max_retries as nat)
                + " rejections; resuming with a clean completion request"@,
    {
        let mut warning = "loop guard budget exhausted after ".to_owned();
        push_decimal(&mut warning, self.max_retries as u64);
        warning.append(" rejections; resuming with a clean completion request");
        warning
    }

    pub open spec fn spec_carry(
        next_requests_completion: bool,
        binding: DeltaBinding,
        previous_attempts: Option<usize>,
        delta_binds_model_retry: bool,
    ) -> RejectionCarry {
        if !next_requests_completion || binding != DeltaBinding::Missing {
            RejectionCarry::Keep
        } else {
            match previous_attempts {
                None => RejectionCarry::Keep,
                Some(a) => if delta_binds_model_retry { RejectionCarry::Bind(a) } else { RejectionCarry::Unbind },
            }
        }
    }

    /// A new completion-request step inherits the base step's rejection count
    /// only while a model retry is in progress; otherwise the count is cleared. A
    /// delta that already binds or unbinds the count is left alone.
    pub fn carry(
        next_requests_completion: bool,
        binding: DeltaBinding,
        previous_attempts: Option<usize>,
        delta_binds_model_retry: bool,
    ) -> (carry: RejectionCarry)
        ensures
            carry == Self::spec_carry(next_requests_completion, binding, previous_attempts, delta_binds_model_retry),
    {
        if !next_requests_completion {
            return RejectionCarry::Keep;
        }
        match binding {
            DeltaBinding::Value | DeltaBinding::Unset => return RejectionCarry::Keep,
            DeltaBinding::Missing => {},
        }
        match previous_attempts {
            None => RejectionCarry::Keep,
            Some(a) => if delta_binds_model_retry { RejectionCarry::Bind(a) } else { RejectionCarry::Unbind },
        }
    }

    /// The reason a candidate response is rejected.
    pub fn rejection_detail(detection: &LoopDetection) -> (detail: String)
        ensures
            detail@ == "loop detected by "@ + detection.detector@ + ": "@ + detection.detail@,
    {
        let mut detail = "loop detected by ".to_owned();
        detail.append(detection.detector.as_str());
        detail.append(": ");
        detail.append(detection.detail.as_str());
        detail
    }
}

/// The rejection count recorded after `rejections` consecutive loop-guard
/// rejections of the same completion request, starting from a clean request.
pub open spec fn rejections_after(policy: LoopGuardPolicy, rejections: nat) -> Option<usize>
    decreases rejections,
{
    if rejections == 0 {
        None
    } else {
        let probe = policy.spec_probe(rejections_after(policy, (rejections - 1) as nat), true, true);
        match LoopGuardPolicy::spec_intervention(probe) {
            LoopGuardIntervention::Retry { rejected_attempts } => Some(rejected_attempts),
            _ => None,
        }
    }
}

/// The loop-guard budget: the k-th consecutive rejection is retried with count
/// k while k is within the budget, and the rejection after the budget resumes
/// with a clean completion request.
pub proof fn loop_guard_budget_counts_rejections(policy: LoopGuardPolicy, rejections: nat)
    requires
        policy.max_retries < usize::MAX,
        1 <= rejections <= policy.max_retries + 1,
    ensures
        rejections <= policy.max_retries ==> rejections_after(policy, rejections) == Some(rejections as usize),
        rejections == policy.max_retries + 1 ==> rejections_after(policy, rejections) is None,
        rejections == policy.max_retries + 1 ==> LoopGuardPolicy::spec_intervention(
            policy.spec_probe(rejections_after(policy, (rejections - 1) as nat), true, true),
        ) == LoopGuardIntervention::Exhausted,
    decreases rejections,
{
    if rejections > 1 {
        loop_guard_budget_counts_rejections(policy, (rejections - 1) as nat);
    }
}

} // verus!

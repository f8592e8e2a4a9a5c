//! Retrying a model request that failed at the provider, up to a budget.
use vstd::prelude::*;

use crate::error::PhiAgentRuntimeError;
use crate::text::{decimal_chars, push_decimal};

verus! {

#[derive(Clone, Copy, PartialEq, Eq, Structural)]
pub struct ModelRetryProbe {
    pub active: bool,
    pub attempt: Option<usize>,
    pub max_retries: usize,
    pub boundary_matches: bool,
    pub will_intervene: bool,
    pub exhausted: bool,
    pub next_attempt: Option<usize>,
}

pub struct ModelRetryPolicy {
    pub max_retries: usize,
}

/// What the policy does at a step boundary.
#[derive(Clone, Copy, PartialEq, Eq, Structural)]
pub enum RetryIntervention {
    /// Not a retryable failure: the next policy decides.
    Pass,
    /// The budget is spent: drop the retry state and request the model afresh.
    Exhausted,
    /// Record the attempt and request the model again.
    Retry { next_attempt: usize },
}

/// What happens to the recorded retry state when a step is created or replaced.
#[derive(Clone, Copy, PartialEq, Eq, Structural)]
pub enum RetryCarry {
    /// Leave the delta as it is.
    Keep,
    /// Record this state in the delta.
    Store(usize),
    /// Record its removal in the delta.
    Remove,
}

/// The retry state a new step sees: what it inherits from the step it was
/// made from, unless its delta records a state or its removal.
pub open spec fn carried_state(inherited: Option<usize>, carry: RetryCarry) -> Option<usize> {
    match carry {
        RetryCarry::Keep => inherited,
        RetryCarry::Store(attempt) => Some(attempt),
        RetryCarry::Remove => None,
    }
}

/// Whether a step failed in the way the retry policy answers: at the
/// provider, on the request or on the response. `failure` is the step's
/// error, `None` for a step that did not fail.
pub fn is_model_retry_failed_step<M>(failure: Option<&PhiAgentRuntimeError<M>>) -> (retryable: bool)
    ensures
        retryable == (failure matches Some(error) && (error is ProviderRequest || error is ProviderResponse)),
{
    match failure {
        Some(PhiAgentRuntimeError::ProviderRequest { .. }) | Some(PhiAgentRuntimeError::ProviderResponse { .. }) => true,
        _ => false,
    }
}

impl ModelRetryPolicy {
    pub fn new(max_retries: usize) -> (policy: Self)
        ensures
            policy.max_retries == max_retries,
    {
        ModelRetryPolicy { max_retries }
    }

    pub open spec fn spec_probe(&self, attempt: Option<usize>, provider_failed: bool, has_request_ancestor: bool) -> ModelRetryProbe {
        let boundary_matches = provider_failed && has_request_ancestor;
        let next_attempt: Option<usize> = if boundary_matches {
            Some(
                match attempt {
                    Some(a) => (a + 1) as usize,
                    None => 1usize,
                },
            )
        } else {
            None
        };
        let exhausted = next_attempt matches Some(n) && n > self.max_retries;
        ModelRetryProbe {
            active: attempt is Some,
            attempt,
            max_retries: self.max_retries,
            boundary_matches,
            will_intervene: boundary_matches && !exhausted,
            exhausted,
            next_attempt,
        }
    }

    /// The retry state at a step boundary. `attempt` is the attempt recorded on
    /// the nearest model-request ancestor; `provider_failed` says whether the
    /// current step failed with a provider request or response error.
    pub fn retry_state(&self, attempt: Option<usize>, provider_failed: bool, has_request_ancestor: bool) -> (probe: ModelRetryProbe)
        requires
            attempt matches Some(a) ==> a < usize::MAX,
        ensures
            probe == self.spec_probe(attempt, provider_failed, has_request_ancestor),
    {
        let boundary_matches = provider_failed && has_request_ancestor;
        let next_attempt = if boundary_matches {
            Some(
                match attempt {
                    Some(a) => a + 1,
                    None => 1,
                },
            )
        } else {
            None
        };
        let exhausted = match next_attempt {
            Some(n) => n > self.max_retries,
            None => false,
        };
        ModelRetryProbe {
            active: attempt.is_some(),
            attempt,
            max_retries: self.max_retries,
            boundary_matches,
            will_intervene: boundary_matches && !exhausted,
            exhausted,
            next_attempt,
        }
    }

    pub open spec fn spec_intervention(probe: ModelRetryProbe) -> RetryIntervention {
        if !probe.boundary_matches {
            RetryIntervention::Pass
        } else if probe.exhausted {
            RetryIntervention::Exhausted
        } else {
            match probe.next_attempt {
                Some(n) => RetryIntervention::Retry { next_attempt: n },
                None => RetryIntervention::Pass,
            }
        }
    }

    pub fn intervention(&self, probe: &ModelRetryProbe) -> (decision: RetryIntervention)
        ensures
            decision == Self::spec_intervention(*probe),
    {
        if !probe.boundary_matches {
            RetryIntervention::Pass
        } else if probe.exhausted {
            RetryIntervention::Exhausted
        } else {
            match probe.next_attempt {
                Some(n) => RetryIntervention::Retry { next_attempt: n },
                None => RetryIntervention::Pass,
            }
        }
    }

    pub fn exhausted_warning(&self) -> (warning: String)
        ensures
            warning@ == "model retry budget exhausted after "@ + decimal_chars(self.max_retries as nat)
                + " attempts; resuming with a clean completion request"@,
    {
        let mut warning = "model retry budget exhausted after ".to_owned();
        push_decimal(&mut warning, self.max_retries as u64);
        warning.append(" attempts; resuming with a clean completion request");
        warning
    }

    pub fn retry_detail(&self, next_attempt: usize) -> (detail: String)
        ensures
            detail@ == "retrying model request ("@ + decimal_chars(next_attempt as nat) + "/"@
                + decimal_chars(self.max_retries as nat) + ")"@,
    {
        let mut detail = "retrying model request (".to_owned();
        push_decimal(&mut detail, next_attempt as u64);
        detail.append("/");
        push_decimal(&mut detail, self.max_retries as u64);
        detail.append(")");
        detail
    }

    pub open spec fn spec_carry(
        next_requests_provider: bool,
        delta_affects_retry_state: bool,
        previous_attempt: Option<usize>,
        delta_affects_loop_guard: bool,
    ) -> RetryCarry {
        if !next_requests_provider || delta_affects_retry_state {
            RetryCarry::Keep
        } else {
            match previous_attempt {
                None => RetryCarry::Keep,
                Some(a) => if delta_affects_loop_guard { RetryCarry::Store(a) } else { RetryCarry::Remove },
            }
        }
    }

    /// A new model-request step inherits the base step's retry state only when
    /// the loop guard is retrying it; otherwise the state is cleared. A delta that
    /// already sets or clears the state is left alone.
    pub fn carry(
        next_requests_provider: bool,
        delta_affects_retry_state: bool,
        previous_attempt: Option<usize>,
        delta_affects_loop_guard: bool,
    ) -> (carry: RetryCarry)
        ensures
            carry == Self::spec_carry(next_requests_provider, delta_affects_retry_state, previous_attempt, delta_affects_loop_guard),
    {
        if !next_requests_provider || delta_affects_retry_state {
            return RetryCarry::Keep;
        }
        match previous_attempt {
            None => RetryCarry::Keep,
            Some(a) => if delta_affects_loop_guard { RetryCarry::Store(a) } else { RetryCarry::Remove },
        }
    }
}

/// A new model request starts with a clean retry state, so the next provider
/// failure is attempt 1 and the whole budget is open to it, unless the loop
/// guard is retrying the request, which keeps the attempt it inherited; a
/// step that is not a model request, or whose delta already records the
/// state, is left alone.
pub proof fn new_request_starts_clean(policy: ModelRetryPolicy, previous_attempt: Option<usize>, loop_guard_retry: bool)
    ensures
        carried_state(previous_attempt, ModelRetryPolicy::spec_carry(true, false, previous_attempt, false)) is None,
        policy.spec_probe(
            carried_state(previous_attempt, ModelRetryPolicy::spec_carry(true, false, previous_attempt, false)),
            true,
            true,
        ).next_attempt == Some(1usize),
        carried_state(previous_attempt, ModelRetryPolicy::spec_carry(true, false, previous_attempt, true)) == previous_attempt,
        forall|delta_affects_retry_state: bool, delta_affects_loop_guard: bool|
            #[trigger] ModelRetryPolicy::spec_carry(false, delta_affects_retry_state, previous_attempt, delta_affects_loop_guard)
                is Keep,
        ModelRetryPolicy::spec_carry(true, true, previous_attempt, loop_guard_retry) is Keep,
{
}

/// The attempt recorded after `failures` consecutive provider failures of the
/// same model request, starting from a clean request.
pub open spec fn attempts_after(policy: ModelRetryPolicy, failures: nat) -> Option<usize>
    decreases failures,
{
    if failures == 0 {
        None
    } else {
        let probe = policy.spec_probe(attempts_after(policy, (failures - 1) as nat), true, true);
        match ModelRetryPolicy::spec_intervention(probe) {
            RetryIntervention::Retry { next_attempt } => Some(next_attempt),
            _ => None,
        }
    }
}

/// The retry budget: the k-th consecutive provider failure of a request is
/// retried as attempt k while k is within the budget, and the failure after the
/// budget resets to a clean request.
pub proof fn retry_budget_counts_attempts(policy: ModelRetryPolicy, failures: nat)
    requires
        policy.max_retries < usize::MAX,
        1 <= failures <= policy.max_retries + 1,
    ensures
        failures <= policy.max_retries ==> attempts_after(policy, failures) == Some(failures as usize),
        failures == policy.max_retries + 1 ==> attempts_after(policy, failures) is None,
        failures == policy.max_retries + 1 ==> ModelRetryPolicy::spec_intervention(
            policy.spec_probe(attempts_after(policy, (failures - 1) as nat), true, true),
        ) == RetryIntervention::Exhausted,
    decreases failures,
{
    if failures > 1 {
        retry_budget_counts_attempts(policy, (failures - 1) as nat);
    }
}

/// Probe consistency: the policy intervenes exactly at a matching boundary
/// whose next attempt stays within the budget.
pub proof fn retry_probe_is_consistent(policy: ModelRetryPolicy, attempt: Option<usize>, provider_failed: bool, has_request_ancestor: bool)
    requires
        attempt matches Some(a) ==> a < usize::MAX,
    ensures
        ({
            let probe = policy.spec_probe(attempt, provider_failed, has_request_ancestor);
            &&& probe.will_intervene <==> (probe.boundary_matches && !probe.exhausted)
            &&& probe.next_attempt is Some <==> probe.boundary_matches
            &&& (probe.exhausted ==> probe.boundary_matches)
            &&& (probe.next_attempt matches Some(n) ==> n >= 1)
        }),
{
}

} // verus!

//! Compacting the history before it outgrows the context window.
use vstd::prelude::*;

use crate::text::sat_mul;

verus! {

pub struct AutoCompactPolicy {
    pub context_tokens: usize,
    pub threshold_tokens: usize,
}

/// What a step boundary does about compaction.
#[derive(Clone, Copy, PartialEq, Eq, Structural)]
pub enum CompactDecision {
    /// Leave the step to the next policy.
    Pass,
    /// The rough estimate is large: measure the history as the provider counts it.
    Measure,
    /// Replace the model request with a compaction request.
    Compact,
}

pub fn saturating_add(a: usize, b: usize) -> (sum: usize)
    ensures
        sum == vstd::math::min(a + b, usize::MAX as int),
{
    match a.checked_add(b) {
        Some(sum) => sum,
        None => usize::MAX,
    }
}

impl AutoCompactPolicy {
    /// Compaction starts at eighty percent of the context window.
    pub fn new(context_tokens: usize) -> (policy: Self)
        ensures
            policy.context_tokens == context_tokens,
            policy.threshold_tokens == sat_mul(context_tokens as nat, 8) / 10,
    {
        AutoCompactPolicy {
            context_tokens,
            threshold_tokens: crate::text::saturating_mul(context_tokens, 8) / 10,
        }
    }

    pub fn with_threshold(threshold_tokens: usize) -> (policy: Self)
        ensures
            policy.context_tokens == threshold_tokens,
            policy.threshold_tokens == threshold_tokens,
    {
        AutoCompactPolicy { context_tokens: threshold_tokens, threshold_tokens }
    }

    pub open spec fn spec_precheck_threshold_tokens(&self) -> nat {
        sat_mul(self.context_tokens as nat, 3) / 5
    }

    /// Below three fifths of the context window, no measurement is worthwhile.
    pub fn precheck_threshold_tokens(&self) -> (tokens: usize)
        ensures
            tokens == self.spec_precheck_threshold_tokens(),
    {
        crate::text::saturating_mul(self.context_tokens, 3) / 5
    }

    pub open spec fn spec_first_look(
        &self,
        requests_provider: bool,
        retrying_model: bool,
        loop_guard_attempts: Option<usize>,
        rough_history_tokens: usize,
        compact_prompt_tokens: usize,
    ) -> CompactDecision {
        if !requests_provider || retrying_model || (loop_guard_attempts matches Some(a) && a != 0) {
            CompactDecision::Pass
        } else if vstd::math::min(rough_history_tokens + compact_prompt_tokens, usize::MAX as int)
            < self.spec_precheck_threshold_tokens() {
            CompactDecision::Pass
        } else {
            CompactDecision::Measure
        }
    }

    /// The decision at a step boundary before the history is measured: only a
    /// clean model request (no model retry, no loop-guard rejection) whose rough
    /// size with the compaction prompt reaches the precheck threshold gets measured.
    pub fn first_look(
        &self,
        requests_provider: bool,
        retrying_model: bool,
        loop_guard_attempts: Option<usize>,
        rough_history_tokens: usize,
        compact_prompt_tokens: usize,
    ) -> (decision: CompactDecision)
        ensures
            decision == self.spec_first_look(
                requests_provider,
                retrying_model,
                loop_guard_attempts,
                rough_history_tokens,
                compact_prompt_tokens,
            ),
    {
        if !requests_provider || retrying_model {
            return CompactDecision::Pass;
        }
        if let Some(attempts) = loop_guard_attempts {
            if attempts != 0 {
                return CompactDecision::Pass;
            }
        }
        let rough = saturating_add(rough_history_tokens, compact_prompt_tokens);
        if rough < self.precheck_threshold_tokens() {
            return CompactDecision::Pass;
        }
        CompactDecision::Measure
    }

    /// The decision once the history is measured: compact when the compaction
    /// request itself reaches the threshold.
    pub fn after_measure(&self, provider_history_tokens: usize, compact_prompt_tokens: usize) -> (decision: CompactDecision)
        ensures
            decision == (if vstd::math::min(provider_history_tokens + compact_prompt_tokens, usize::MAX as int)
                < self.threshold_tokens {
                CompactDecision::Pass
            } else {
                CompactDecision::Compact
            }),
    {
        if saturating_add(provider_history_tokens, compact_prompt_tokens) < self.threshold_tokens {
            CompactDecision::Pass
        } else {
            CompactDecision::Compact
        }
    }
}

} // verus!

//! How much tool output reaches the model.
use vstd::prelude::*;

verus! {

#[derive(Clone, Copy, PartialEq, Eq, Structural)]
pub struct ToolOutputLimits {
    pub output_threshold_tokens: usize,
}

impl ToolOutputLimits {
    pub fn new(output_threshold_tokens: usize) -> (limits: Self)
        ensures
            limits.output_threshold_tokens == output_threshold_tokens,
    {
        ToolOutputLimits { output_threshold_tokens }
    }

    /// The tighter of two limits.
    pub fn stricter(self, other: Self) -> (limits: Self)
        ensures
            limits.output_threshold_tokens == vstd::math::min(
                self.output_threshold_tokens as int,
                other.output_threshold_tokens as int,
            ),
    {
        ToolOutputLimits {
            output_threshold_tokens: if self.output_threshold_tokens <= other.output_threshold_tokens {
                self.output_threshold_tokens
            } else {
                other.output_threshold_tokens
            },
        }
    }
}

} // verus!

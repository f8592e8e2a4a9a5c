//! Ending a turn once the history holds the step budget.
use vstd::prelude::*;

use crate::text::{decimal_chars, push_decimal};

verus! {

pub struct StepBudgetPolicy {
    pub max_steps: usize,
}

impl StepBudgetPolicy {
    pub fn new(max_steps: usize) -> (policy: Self)
        ensures
            policy.max_steps == max_steps,
    {
        StepBudgetPolicy { max_steps }
    }

    /// A model request on a history of `history_len` messages ends the turn
    /// when the history has reached the budget.
    pub fn ends_turn(&self, requests_provider: bool, history_len: usize) -> (ends: bool)
        ensures
            ends == (requests_provider && history_len >= self.max_steps),
    {
        requests_provider && history_len >= self.max_steps
    }

    /// The reason given for the end of the turn.
    pub fn turn_end_detail(&self) -> (detail: String)
        ensures
            detail@ == "max steps reached: "@ + decimal_chars(self.max_steps as nat),
    {
        let mut detail = "max steps reached: ".to_owned();
        push_decimal(&mut detail, self.max_steps as u64);
        detail
    }
}

} // verus!

//! Policies that steer agent steps: budgets, retries, compaction and loop guards.
pub mod auto_compact;
pub mod loop_guard;
pub mod model_retry;
pub mod step_budget;
pub mod tool_limits;

//! Tool execution: the tools an executor holds, the calls it answers, and the
//! shaping of tool output.
pub mod containers;
pub mod json;
pub mod leaf_budget;
pub mod limits;
pub mod registry;
pub mod sanitizer;
pub mod shell_job;
pub mod tool_call;
pub mod truncation;

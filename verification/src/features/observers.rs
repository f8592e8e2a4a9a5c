//! Modules that watch a run and show it.
pub mod echo;
pub mod spinner;
pub mod tool_display;

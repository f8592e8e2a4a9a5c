pub mod command;
pub mod runtime;
pub mod step;

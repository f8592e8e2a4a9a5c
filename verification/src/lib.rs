pub mod text;
pub mod expr;
pub mod message;
pub mod error;
pub mod executor;
pub mod agent;
pub mod banner;
pub mod cli;
pub mod config;
pub mod container;
pub mod features;

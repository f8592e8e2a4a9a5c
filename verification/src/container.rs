pub mod cli;
pub mod client;
pub mod job;
pub mod lease;
pub mod platform;
pub mod protocol;
pub mod server;
pub mod terminal;
pub mod wait;

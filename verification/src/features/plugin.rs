//! Python plugins: the runtime's version check and the facts a status report shows.
pub mod python;
pub mod types;

//! The data the library works on: processes, scripts, history entries,
//! process states and the configuration.

pub mod config;
pub mod history;
pub mod metrics;
pub mod process;
pub mod script;

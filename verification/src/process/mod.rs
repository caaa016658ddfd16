//! The registry of managed processes and the command history.

pub mod history;
pub mod manager;

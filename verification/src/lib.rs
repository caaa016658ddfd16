//! Verified core of a development process manager: command parsing, port
//! detection, process naming, the process registry, command history, script
//! discovery and the terminal UI's navigation state.

pub mod text;
pub mod paths;
pub mod stamp;
pub mod models;
pub mod process;
pub mod script;
pub mod config;
pub mod cli;
pub mod tui;
pub mod mcp;
pub mod laws;

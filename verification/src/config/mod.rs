//! Where the configuration lives.

pub mod manager;

//! An entry of the command history.

use vstd::prelude::*;
use crate::stamp::{Timestamp, new_id, now};
use crate::text::{command_line, join_command};

verus! {

/// A command that was run.
#[derive(Clone, Debug)]
pub struct HistoryEntry {
    /// Identifier (the 128-bit value of a UUID).
    pub id: u128,
    pub command: String,
    pub args: Vec<String>,
    /// Working directory.
    pub cwd: String,
    pub executed_at: Timestamp,
    pub exit_code: Option<i32>,
    pub duration_secs: Option<u64>,
}

impl HistoryEntry {
    /// An entry with a fresh identifier, executed now, with no exit code or
    /// duration yet.
    pub fn new(command: String, args: Vec<String>, cwd: String) -> (r: Self)
        ensures
            r.command == command,
            r.args == args,
            r.cwd == cwd,
            r.exit_code is None,
            r.duration_secs is None,
    {
        HistoryEntry {
            id: new_id(),
            command,
            args,
            cwd,
            executed_at: now(),
            exit_code: None,
            duration_secs: None,
        }
    }

    /// The command and its arguments as one line.
    pub open spec fn full_command_spec(&self) -> Seq<char> {
        command_line(self.command@, self.args.deep_view())
    }

    /// The command followed by its arguments, separated by single spaces.
    pub fn full_command(&self) -> (r: String)
        ensures
            r@ == self.full_command_spec(),
    {
        join_command(&self.command, &self.args)
    }
}

} // verus!

//! A process started and tracked by the manager.

use vstd::prelude::*;
use crate::stamp::{Timestamp, new_id, now};
use crate::text::{command_line, join_command};

verus! {

/// Where a managed process came from.
#[derive(Clone, Debug, PartialEq, Eq)]
pub enum ProcessSource {
    /// A script of a project file (`file` is the file's name).
    Script { file: String, name: String },
    /// A command line typed by the user.
    Manual { command: String },
    /// A process that was not started by this tool.
    External,
}

/// A process started and tracked by the manager.
#[derive(Clone, Debug)]
pub struct ManagedProcess {
    /// Identifier (the 128-bit value of a UUID).
    pub id: u128,
    pub name: String,
    pub pid: u32,
    pub command: String,
    pub args: Vec<String>,
    /// Working directory.
    pub cwd: String,
    pub port: Option<u16>,
    pub started_at: Timestamp,
    pub source: ProcessSource,
}

impl ManagedProcess {
    /// A process record with a fresh identifier, started now.
    pub fn new(
        name: String,
        pid: u32,
        command: String,
        args: Vec<String>,
        cwd: String,
        port: Option<u16>,
        source: ProcessSource,
    ) -> (r: Self)
        ensures
            r.name == name,
            r.pid == pid,
            r.command == command,
            r.args == args,
            r.cwd == cwd,
            r.port == port,
            r.source == source,
    {
        ManagedProcess {
            id: new_id(),
            name,
            pid,
            command,
            args,
            cwd,
            port,
            started_at: now(),
            source,
        }
    }

    /// The command and its arguments as one line.
    pub open spec fn full_command_spec(&self) -> Seq<char> {
        command_line(self.command@, self.args.deep_view())
    }

    /// The command followed by its arguments, separated by single spaces.
    pub fn full_command(&self) -> (r: String)
        ensures
            r@ == self.full_command_spec(),
    {
        join_command(&self.command, &self.args)
    }
}

} // verus!

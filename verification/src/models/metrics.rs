//! The state a process is in.

use vstd::prelude::*;
use crate::text::str_eq;

verus! {

/// The scheduling state of a process.
#[derive(Clone, Copy, Debug, PartialEq, Eq, Structural)]
pub enum ProcessStatus {
    Running,
    Sleeping,
    Zombie,
    Unknown,
}

/// The state named by a status text: `run`/`running`, `sleep`/`sleeping` and
/// `zombie` are recognised, anything else is unknown.
pub open spec fn status_from_text(t: Seq<char>) -> ProcessStatus {
    if t == "run"@ || t == "running"@ {
        ProcessStatus::Running
    } else if t == "sleep"@ || t == "sleeping"@ {
        ProcessStatus::Sleeping
    } else if t == "zombie"@ {
        ProcessStatus::Zombie
    } else {
        ProcessStatus::Unknown
    }
}

impl ProcessStatus {
    /// The state named by the text a system monitor gives for a process.
    pub fn from_status_text(t: &str) -> (r: ProcessStatus)
        ensures
            r == status_from_text(t@),
    {
        if str_eq(t, "run") || str_eq(t, "running") {
            ProcessStatus::Running
        } else if str_eq(t, "sleep") || str_eq(t, "sleeping") {
            ProcessStatus::Sleeping
        } else if str_eq(t, "zombie") {
            ProcessStatus::Zombie
        } else {
            ProcessStatus::Unknown
        }
    }
}

} // verus!

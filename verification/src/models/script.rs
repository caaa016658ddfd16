//! A runnable script found in a project file.

use vstd::prelude::*;

verus! {

/// A runnable script found in a project file.
#[derive(Clone, Debug)]
pub struct Script {
    pub name: String,
    pub command: String,
    /// The file the script was found in.
    pub source_file: String,
    /// The directory of the project the script belongs to.
    pub project_dir: String,
    pub is_running: bool,
    pub running_process_id: Option<u128>,
}

impl Script {
    /// A script that is not running.
    pub fn new(name: String, command: String, source_file: String, project_dir: String) -> (r: Self)
        ensures
            r.name == name,
            r.command == command,
            r.source_file == source_file,
            r.project_dir == project_dir,
            !r.is_running,
            r.running_process_id is None,
    {
        Script { name, command, source_file, project_dir, is_running: false, running_process_id: None }
    }
}

} // verus!

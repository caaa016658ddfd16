//! The location of the configuration file.

use vstd::prelude::*;
use vstd::string::StringExecFns;
use crate::paths::{join_path, join_path_spec};
use crate::process::manager::opt_view;

verus! {

/// The configuration file's path under the user's configuration directory
/// (the current directory when there is none).
pub open spec fn config_path_spec(config_dir: Option<Seq<char>>) -> Seq<char> {
    let base = match config_dir {
        Some(d) => d,
        None => "."@,
    };
    join_path_spec(join_path_spec(base, "devproc"@), "config.toml"@)
}

/// Locates the configuration file.
pub struct ConfigManager;

impl ConfigManager {
    /// The configuration file: `devproc/config.toml` under `config_dir`, the
    /// user's configuration directory, or under `.` when it is unknown.
    pub fn get_config_path(config_dir: Option<String>) -> (r: String)
        ensures
            r@ == config_path_spec(opt_view(config_dir)),
    {
        let base = match config_dir {
            Some(d) => d,
            None => String::from_str("."),
        };
        let dir = join_path(base.as_str(), "devproc");
        join_path(dir.as_str(), "config.toml")
    }
}

} // verus!

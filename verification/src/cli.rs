//! The decisions of the command-line commands.

use vstd::prelude::*;
use vstd::string::StringExecFns;
use crate::models::process::ManagedProcess;
use crate::models::script::Script;
use crate::paths::{join_path, join_path_spec};
use crate::process::manager::{ProcessManager, has_name, has_pid, opt_view};
use crate::text::{str_eq, parse_u32, parse_unsigned_spec, decimal, signed_decimal, push_decimal, i64_to_decimal, u64_to_decimal};

verus! {

/// The state file's path under the user's local data directory (the current
/// directory when there is none).
pub open spec fn state_file_spec(data_dir: Option<Seq<char>>) -> Seq<char> {
    let base = match data_dir {
        Some(d) => d,
        None => "."@,
    };
    join_path_spec(join_path_spec(base, "devproc"@), "processes.json"@)
}

/// The file the registry is saved to: `devproc/processes.json` under
/// `data_dir`, the user's local data directory, or under `.` when it is
/// unknown.
pub fn state_file_path(data_dir: Option<String>) -> (r: String)
    ensures
        r@ == state_file_spec(opt_view(data_dir)),
{
    let base = match data_dir {
        Some(d) => d,
        None => String::from_str("."),
    };
    let dir = join_path(base.as_str(), "devproc");
    join_path(dir.as_str(), "processes.json")
}

/// The position of the first script named `name`.
pub fn find_script(scripts: &Vec<Script>, name: &str) -> (r: Option<usize>)
    ensures
        match r {
            Some(i) => i < scripts@.len() && scripts@[i as int].name@ == name@ && forall|j: int|
                0 <= j < i ==> (#[trigger] scripts@[j]).name@ != name@,
            None => forall|j: int| 0 <= j < scripts@.len() ==> (#[trigger] scripts@[j]).name@ != name@,
        },
{
    let n = scripts.len();
    let mut i: usize = 0;
    while i < n
        invariant
            n == scripts@.len(),
            i <= n,
            forall|j: int| 0 <= j < i ==> (#[trigger] scripts@[j]).name@ != name@,
        decreases n - i,
    {
        if str_eq(scripts[i].name.as_str(), name) {
            return Some(i);
        }
        i = i + 1;
    }
    None
}

/// The process a kill command names: a process with that name when there is
/// one, else, when the target reads as a number, a process with that
/// operating-system identifier.
pub fn resolve_kill_target<'a>(manager: &'a ProcessManager, target: &str) -> (r: Option<&'a ManagedProcess>)
    ensures
        has_name(manager@, target@) ==> (r matches Some(p) && p.name@ == target@ && exists|k: u128|
            #[trigger] manager@.contains_key(k) && manager@[k] == *p),
        !has_name(manager@, target@) ==> match parse_unsigned_spec(target@, u32::MAX as int) {
            Some(pid) => if has_pid(manager@, pid as u32) {
                (r matches Some(p) && p.pid == pid && exists|k: u128|
                    #[trigger] manager@.contains_key(k) && manager@[k] == *p)
            } else {
                r is None
            },
            None => r is None,
        },
{
    match manager.get_process_by_name(target) {
        Some(p) => Some(p),
        None => match parse_u32(target) {
            Some(pid) => manager.get_process_by_pid(pid),
            None => None,
        },
    }
}

/// How long ago a process started, from the seconds elapsed: whole hours when
/// at least one, else whole minutes when at least one, else seconds (which may
/// be negative), each followed by its unit letter and, when `ago`, ` ago`.
pub open spec fn elapsed_label_spec(secs: int, ago: bool) -> Seq<char> {
    let suffix = if ago { " ago"@ } else { Seq::<char>::empty() };
    if secs >= 3600 {
        decimal((secs / 3600) as nat) + seq!['h'] + suffix
    } else if secs >= 60 {
        decimal((secs / 60) as nat) + seq!['m'] + suffix
    } else {
        signed_decimal(secs) + seq!['s'] + suffix
    }
}

/// Writes how long ago a process started, given the seconds elapsed.
pub fn elapsed_label(secs: i64, ago: bool) -> (r: String)
    ensures
        r@ == elapsed_label_spec(secs as int, ago),
{
    let mut r = if secs >= 3600 {
        let mut s = String::new();
        push_decimal(&mut s, (secs / 3600) as u64);
        s.append("h");
        s
    } else if secs >= 60 {
        let mut s = String::new();
        push_decimal(&mut s, (secs / 60) as u64);
        s.append("m");
        s
    } else {
        let mut s = i64_to_decimal(secs);
        s.append("s");
        s
    };
    if ago {
        r.append(" ago");
    }
    proof {
        reveal_strlit("h");
        reveal_strlit("m");
        reveal_strlit("s");
        assert(Seq::<char>::empty() + decimal((secs / 3600) as nat) =~= decimal((secs / 3600) as nat));
        assert(Seq::<char>::empty() + decimal((secs / 60) as nat) =~= decimal((secs / 60) as nat));
    }
    r
}

/// A port as shown in listings: its number, or `-` when there is none.
pub fn port_label(port: Option<u16>) -> (r: String)
    ensures
        r@ == match port {
            Some(p) => decimal(p as nat),
            None => "-"@,
        },
{
    match port {
        Some(p) => u64_to_decimal(p as u64),
        None => String::from_str("-"),
    }
}

/// A memory size in bytes as whole mebibytes, rounded down.
pub fn memory_mb(bytes: u64) -> (r: u64)
    ensures
        r == bytes / 1048576,
{
    bytes / 1024 / 1024
}

} // verus!

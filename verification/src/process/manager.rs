//! The registry of managed processes.

use std::collections::HashMap;
use vstd::prelude::*;
use crate::models::process::ManagedProcess;
use crate::text::{str_eq, parse_u16, parse_unsigned_spec, decimal, push_decimal, push_char};
use crate::paths::{file_name, file_name_of};
use vstd::string::StringExecFns;
use vstd::std_specs::iter::IteratorSpec;

verus! {

broadcast use vstd::std_specs::hash::group_hash_axioms;

/// `sysinfo::System`, the system monitor, held opaque.
#[verifier::external_type_specification]
#[verifier::external_body]
pub struct ExSystem(sysinfo::System);

/// A system monitor with everything loaded.
///
/// Trusted: calls `sysinfo::System::new_all`. Nothing is stated of the result,
/// which depends on the machine.
#[verifier::external_body]
fn system_new_all() -> (r: sysinfo::System) {
    sysinfo::System::new_all()
}

/// Reloads everything the system monitor knows.
///
/// Trusted: calls `sysinfo::System::refresh_all`. Nothing is stated of the new
/// state, which depends on the machine.
#[verifier::external_body]
fn system_refresh_all(system: &mut sysinfo::System) {
    system.refresh_all()
}

/// The process identifiers the system monitor holds in its process table:
/// those `pid` for which the table has an entry under `sysinfo::Pid::from_u32(pid)`.
pub uninterp spec fn system_pids(system: sysinfo::System) -> Set<u32>;

/// Whether the system monitor knows a process with identifier `pid`.
///
/// Trusted: calls `sysinfo::System::process` with `sysinfo::Pid::from_u32(pid)`
/// and tests the result for `Some`. In sysinfo's source `process` is a lookup
/// in the monitor's process table, so the answer is whether `pid` is in
/// `system_pids` of the monitor. What the table holds is the machine's to say
/// and is not stated.
#[verifier::external_body]
fn system_has_process(system: &sysinfo::System, pid: u32) -> (r: bool)
    ensures
        r == system_pids(*system).contains(pid),
{
    system.process(sysinfo::Pid::from_u32(pid)).is_some()
}

/// `nix::errno::Errno`, the error of a failed system call, held opaque.
#[verifier::external_type_specification]
#[verifier::external_body]
pub struct ExErrno(nix::errno::Errno);

/// Whether `signo` is the number of a signal `nix` knows on this platform.
pub uninterp spec fn is_signal_number(signo: i32) -> bool;

/// Whether `signo` names a signal.
///
/// Trusted: converts `signo` with `nix::sys::signal::Signal::try_from` and
/// tests the result for `Ok`; the conversion looks the number up in nix's
/// fixed table of the platform's signals, so the answer is
/// `is_signal_number` of the number alone. Which numbers are in the table is
/// left to nix.
#[verifier::external_body]
fn names_signal(signo: i32) -> (r: bool)
    ensures
        r == is_signal_number(signo),
{
    nix::sys::signal::Signal::try_from(signo).is_ok()
}

/// Sends the signal numbered `signo` to the process (or, for zero and
/// negative values, the process group) `pid`.
///
/// Trusted: converts `signo` with `nix::sys::signal::Signal::try_from`, which
/// fails with `EINVAL` for a number that names no signal, and calls
/// `nix::sys::signal::kill` with `nix::unistd::Pid::from_raw(pid)` and that
/// signal. Whether the signal can be delivered is the operating system's to
/// say, so nothing is stated of the result.
#[verifier::external_body]
fn send_signal(pid: i32, signo: i32) -> (r: Result<(), nix::errno::Errno>) {
    let sig = nix::sys::signal::Signal::try_from(signo)?;
    nix::sys::signal::kill(nix::unistd::Pid::from_raw(pid), sig)
}

/// Why an operation on a registered process failed.
#[derive(Clone, Copy, Debug, PartialEq, Eq, Structural)]
pub enum ManagerError {
    /// No process is registered under the identifier.
    ProcessNotFound,
    /// The operating system refused the signal.
    SignalFailed,
}

impl ManagerError {
    /// The message reported for the error.
    pub fn message(&self) -> (r: &'static str)
        ensures
            *self == ManagerError::ProcessNotFound ==> r@ == "Process not found"@,
            *self == ManagerError::SignalFailed ==> r@ == "Failed to send signal to process"@,
    {
        match self {
            ManagerError::ProcessNotFound => "Process not found",
            ManagerError::SignalFailed => "Failed to send signal to process",
        }
    }
}

/// The first group of the first match of the regular expression `pattern` in
/// `text`, when the pattern compiles and matches.
pub uninterp spec fn regex_group1(pattern: Seq<char>, text: Seq<char>) -> Option<Seq<char>>;

/// The text of capture group 1 of the first match of `pattern` in `text`.
///
/// Trusted: compiles `pattern` with `regex::Regex::new`, then calls
/// `Regex::captures` on `text` and `Captures::get(1)`, and copies the matched
/// text; a pattern that does not compile gives `None`. The contract only says
/// that the result is `regex_group1` of the pattern and the text, a function
/// of these two alone; the matching itself is left to `regex`.
#[verifier::external_body]
fn capture_group1(pattern: &str, text: &str) -> (r: Option<String>)
    ensures
        match r {
            Some(g) => regex_group1(pattern@, text@) == Some(g@),
            None => regex_group1(pattern@, text@) is None,
        },
{
    match regex::Regex::new(pattern) {
        Ok(re) => match re.captures(text) {
            Some(caps) => caps.get(1).map(|m| m.as_str().to_string()),
            None => None,
        },
        Err(_) => None,
    }
}

/// The patterns a port is looked for with, in order: `-p 3000`,
/// `--port 3000`, `--port=3000`, `:3000` (four or five digits) and `PORT=3000`.
pub open spec fn port_patterns() -> Seq<Seq<char>> {
    seq![
        "-p\\s+(\\d+)"@,
        "--port\\s+(\\d+)"@,
        "--port=(\\d+)"@,
        ":(\\d{4,5})\\b"@,
        "PORT=(\\d+)"@,
    ]
}

/// The view of an optional string.
pub open spec fn opt_view(o: Option<String>) -> Option<Seq<char>> {
    match o {
        Some(s) => Some(s@),
        None => None,
    }
}

/// The first captured text, in order, that reads as a `u16`.
pub open spec fn first_port_spec(captures: Seq<Option<Seq<char>>>) -> Option<u16>
    decreases captures.len(),
{
    if captures.len() == 0 {
        None
    } else {
        match captures[0] {
            Some(g) => match parse_unsigned_spec(g, u16::MAX as int) {
                Some(v) => Some(v as u16),
                None => first_port_spec(captures.drop_first()),
            },
            None => first_port_spec(captures.drop_first()),
        }
    }
}

/// The port a command line names: the first of the port patterns whose
/// captured number is a valid `u16`.
pub open spec fn detect_port_spec(text: Seq<char>) -> Option<u16> {
    first_port_spec(port_patterns().map_values(|p: Seq<char>| regex_group1(p, text)))
}

/// The directory part of a process name: the final component of the working
/// directory, or `unknown` when there is none.
pub open spec fn name_dir(file_name: Option<Seq<char>>) -> Seq<char> {
    match file_name {
        Some(n) => n,
        None => "unknown"@,
    }
}

/// A process name: `dir/script/port`, or `dir/script` without a port.
pub open spec fn name_spec(file_name: Option<Seq<char>>, script: Seq<char>, port: Option<u16>) -> Seq<char> {
    match port {
        Some(p) => name_dir(file_name) + seq!['/'] + script + seq!['/'] + decimal(p as nat),
        None => name_dir(file_name) + seq!['/'] + script,
    }
}

/// The registry of processes started by this tool, keyed by identifier,
/// together with a system monitor.
pub struct ProcessManager {
    processes: HashMap<u128, ManagedProcess>,
    system: sysinfo::System,
}

impl View for ProcessManager {
    type V = Map<u128, ManagedProcess>;

    closed spec fn view(&self) -> Map<u128, ManagedProcess> {
        self.processes@
    }
}

/// Whether some registered process has the name `name`.
pub open spec fn has_name(m: Map<u128, ManagedProcess>, name: Seq<char>) -> bool {
    exists|k: u128| m.contains_key(k) && (#[trigger] m[k]).name@ == name
}

/// Whether some registered process has the operating-system identifier `pid`.
pub open spec fn has_pid(m: Map<u128, ManagedProcess>, pid: u32) -> bool {
    exists|k: u128| m.contains_key(k) && (#[trigger] m[k]).pid == pid
}

/// `list` holds each entry of `m` once, in some order.
pub open spec fn lists_entries(m: Map<u128, ManagedProcess>, list: Seq<(u128, &ManagedProcess)>) -> bool {
    &&& forall|i: int| 0 <= i < list.len() ==> m.contains_key(#[trigger] list[i].0) && m[list[i].0] == *list[i].1
    &&& forall|i: int, j: int| 0 <= i < j < list.len() ==> #[trigger] list[i].0 != #[trigger] list[j].0
    &&& forall|k: u128| #[trigger] m.contains_key(k) ==> exists|i: int| 0 <= i < list.len() && #[trigger] list[i].0 == k
}

/// `list` holds each registered process once, in some order.
pub open spec fn lists_all(m: Map<u128, ManagedProcess>, list: Seq<&ManagedProcess>) -> bool {
    exists|entries: Seq<(u128, &ManagedProcess)>|
        {
            &&& lists_entries(m, entries)
            &&& entries.len() == list.len()
            &&& forall|i: int| 0 <= i < list.len() ==> #[trigger] list[i] == entries[i].1
        }
}

/// A listing of every entry is as long as the map.
proof fn lemma_entries_len(m: Map<u128, ManagedProcess>, list: Seq<(u128, &ManagedProcess)>)
    requires
        lists_entries(m, list),
    ensures
        list.len() == m.len(),
{
    let keys = list.map_values(|e: (u128, &ManagedProcess)| e.0);
    assert(keys.no_duplicates()) by {
        assert forall|i: int, j: int| 0 <= i < keys.len() && 0 <= j < keys.len() && i != j implies keys[i] != keys[j] by {
            if i < j {
                assert(list[i].0 != list[j].0);
            } else {
                assert(list[j].0 != list[i].0);
            }
        }
    }
    assert(keys.to_set() =~= m.dom()) by {
        assert forall|k: u128| keys.to_set().contains(k) <==> m.dom().contains(k) by {
            if m.dom().contains(k) {
                let i = choose|i: int| 0 <= i < list.len() && #[trigger] list[i].0 == k;
                assert(keys[i] == k);
            }
            if keys.to_set().contains(k) {
                let i = choose|i: int| 0 <= i < keys.len() && keys[i] == k;
                assert(m.contains_key(list[i].0));
            }
        }
    }
    keys.unique_seq_to_set();
}

impl ProcessManager {
    /// The system monitor held by the registry.
    pub closed spec fn monitor(&self) -> sysinfo::System {
        self.system
    }

    /// The registry's walk over its entries: the hash map's own order, fixed
    /// while the registry is not changed.
    pub closed spec fn walk(&self) -> std::collections::hash_map::Iter<'_, u128, ManagedProcess> {
        vstd::std_specs::hash::spec_hash_map_iter(&self.processes)
    }

    /// What a kill of the process registered under `id` with the signal
    /// numbered `signal` hands to the operating system: the process's
    /// operating-system identifier and `signal`, or 15 (`SIGTERM`) when
    /// `signal` names no signal; `ProcessNotFound` when no process is
    /// registered under `id`.
    pub fn kill_request(&self, id: &u128, signal: i32) -> (r: Result<(i32, i32), ManagerError>)
        ensures
            r == kill_request_spec(self@, *id, signal),
    {
        match self.processes.get(id) {
            Some(p) => {
                let signo = if names_signal(signal) {
                    signal
                } else {
                    15
                };
                Ok((p.pid as i32, signo))
            },
            None => Err(ManagerError::ProcessNotFound),
        }
    }

    /// The process identifiers the system monitor currently knows.
    pub open spec fn known_pids(&self) -> Set<u32> {
        system_pids(self.monitor())
    }

    /// An empty registry with a freshly loaded system monitor.
    pub fn new() -> (r: Self)
        ensures
            r@ == Map::<u128, ManagedProcess>::empty(),
    {
        ProcessManager { processes: HashMap::new(), system: system_new_all() }
    }

    /// Registers `process` under its identifier, replacing any process
    /// registered under the same identifier.
    pub fn add_process(&mut self, process: ManagedProcess)
        ensures
            final(self)@ == old(self)@.insert(process.id, process),
            final(self).monitor() == old(self).monitor(),
    {
        let id = process.id;
        self.processes.insert(id, process);
    }

    /// Unregisters the process with identifier `id`, returning it.
    pub fn remove_process(&mut self, id: &u128) -> (r: Option<ManagedProcess>)
        ensures
            final(self)@ == old(self)@.remove(*id),
            r == old(self)@.get(*id),
            final(self).monitor() == old(self).monitor(),
    {
        self.processes.remove(id)
    }

    /// The process registered under `id`.
    pub fn get_process(&self, id: &u128) -> (r: Option<&ManagedProcess>)
        ensures
            match r {
                Some(p) => self@.contains_key(*id) && *p == self@[*id],
                None => !self@.contains_key(*id),
            },
    {
        self.processes.get(id)
    }

    /// Every registered process with the identifier it is registered under, in
    /// the registry's own order.
    pub fn state_entries(&self) -> (r: Vec<(u128, &ManagedProcess)>)
        ensures
            lists_entries(self@, r@),
            r@.len() == self@.len(),
            forall|i: int| 0 <= i < r@.len() ==> (#[trigger] r@[i]).0 == walk_keys(self.walk().remaining())[i],
    {
        let mut out: Vec<(u128, &ManagedProcess)> = Vec::new();
        let ghost m = self@;
        let ghost all = vstd::std_specs::hash::spec_hash_map_iter(&self.processes).remaining();
        for item in it: self.processes.iter()
            invariant
                m == self@,
                it.seq() == all,
                all == vstd::std_specs::hash::spec_hash_map_iter(&self.processes).remaining(),
                out@.len() == it.index(),
                forall|i: int| 0 <= i < it.index() ==> (#[trigger] out@[i]).0 == *all[i].0 && out@[i].1 == all[i].1,
        {
            let (k, p) = item;
            out.push((*k, p));
        }
        proof {
            let v = all;
            assert(v.no_duplicates());
            assert forall|i: int| 0 <= i < out@.len() implies m.contains_key(#[trigger] out@[i].0) && m[out@[i].0] == *out@[i].1 by {
                assert(m.contains_key(*v[i].0) && m[*v[i].0] == *v[i].1);
            }
            assert forall|i: int, j: int| 0 <= i < j < out@.len() implies #[trigger] out@[i].0 != #[trigger] out@[j].0 by {
                if out@[i].0 == out@[j].0 {
                    assert(m[*v[i].0] == *v[i].1);
                    assert(m[*v[j].0] == *v[j].1);
                    assert(v[i] == v[j]);
                }
            }
            assert forall|k: u128| #[trigger] m.contains_key(k) implies exists|i: int| 0 <= i < out@.len() && #[trigger] out@[i].0 == k by {
                assert(v.contains((&k, &m[k])));
                let i = choose|i: int| 0 <= i < v.len() && v[i] == (&k, &m[k]);
                assert(out@[i].0 == k);
            }
            lemma_entries_len(m, out@);
        }
        out
    }

    /// Every registered process, each once, in the registry's own order.
    pub fn list_processes(&self) -> (r: Vec<&ManagedProcess>)
        ensures
            lists_all(self@, r@),
            r@.len() == self@.len(),
            forall|i: int| 0 <= i < r@.len() ==> *(#[trigger] r@[i]) == self@[walk_keys(self.walk().remaining())[i]],
    {
        let entries = self.state_entries();
        let mut out: Vec<&ManagedProcess> = Vec::new();
        let n = entries.len();
        let mut i: usize = 0;
        while i < n
            invariant
                n == entries@.len(),
                i <= n,
                out@.len() == i,
                forall|j: int| 0 <= j < i ==> #[trigger] out@[j] == entries@[j].1,
            decreases n - i,
        {
            out.push(entries[i].1);
            i = i + 1;
        }
        proof {
            lemma_entries_len(self@, entries@);
            assert forall|j: int| 0 <= j < out@.len() implies *(#[trigger] out@[j]) == self@[walk_keys(
                self.walk().remaining(),
            )[j]] by {
                assert(out@[j] == entries@[j].1);
                assert(entries@[j].0 == walk_keys(self.walk().remaining())[j]);
            }
        }
        out
    }

    /// Some registered process named `name`, if there is one.
    pub fn get_process_by_name(&self, name: &str) -> (r: Option<&ManagedProcess>)
        ensures
            match r {
                Some(p) => exists|k: u128| #[trigger] self@.contains_key(k) && self@[k] == *p && p.name@ == name@,
                None => !has_name(self@, name@),
            },
    {
        for item in it: self.processes.iter()
            invariant
                forall|i: int| 0 <= i < it.index() ==> (#[trigger] it.seq()[i]).1.name@ != name@,
                it.seq() == vstd::std_specs::hash::spec_hash_map_iter(&self.processes).remaining(),
        {
            let (k, p) = item;
            if str_eq(p.name.as_str(), name) {
                proof {
                    assert(item == it.seq()[it.index()]);
                    assert(self@.contains_key(*k) && self@[*k] == *p);
                }
                return Some(p);
            }
        }
        None
    }

    /// Some registered process whose operating-system identifier is `pid`, if
    /// there is one.
    pub fn get_process_by_pid(&self, pid: u32) -> (r: Option<&ManagedProcess>)
        ensures
            match r {
                Some(p) => exists|k: u128| #[trigger] self@.contains_key(k) && self@[k] == *p && p.pid == pid,
                None => !has_pid(self@, pid),
            },
    {
        for item in it: self.processes.iter()
            invariant
                forall|i: int| 0 <= i < it.index() ==> (#[trigger] it.seq()[i]).1.pid != pid,
                it.seq() == vstd::std_specs::hash::spec_hash_map_iter(&self.processes).remaining(),
        {
            let (k, p) = item;
            if p.pid == pid {
                proof {
                    assert(item == it.seq()[it.index()]);
                    assert(self@.contains_key(*k) && self@[*k] == *p);
                }
                return Some(p);
            }
        }
        None
    }

    /// Unregisters every process whose identifier is in `ids`.
    pub fn remove_processes(&mut self, ids: &Vec<u128>)
        ensures
            final(self)@ == old(self)@.remove_keys(ids@.to_set()),
            final(self).monitor() == old(self).monitor(),
    {
        let n = ids.len();
        let mut i: usize = 0;
        while i < n
            invariant
                n == ids@.len(),
                i <= n,
                self@ == old(self)@.remove_keys(ids@.take(i as int).to_set()),
                self.monitor() == old(self).monitor(),
            decreases n - i,
        {
            let id = ids[i];
            self.processes.remove(&id);
            proof {
                assert(ids@.take(i + 1) =~= ids@.take(i as int).push(id));
                ids@.take(i as int).lemma_push_to_set_commute(id);
                assert(self@ =~= old(self)@.remove_keys(ids@.take(i + 1).to_set()));
            }
            i = i + 1;
        }
        proof {
            assert(ids@.take(n as int) =~= ids@);
        }
    }

    /// Reloads the system monitor and unregisters every process whose
    /// operating-system identifier the reloaded monitor no longer knows; the
    /// other processes stay registered as they were. Which processes are still
    /// alive is the machine's to say: the contract states the outcome over
    /// `known_pids` of the reloaded monitor.
    pub fn refresh(&mut self)
        ensures
            final(self)@.submap_of(old(self)@),
            forall|k: u128| #[trigger] final(self)@.contains_key(k) <==> old(self)@.contains_key(k)
                && final(self).known_pids().contains(old(self)@[k].pid),
    {
        system_refresh_all(&mut self.system);
        let ghost m = self@;
        let ghost known = self.known_pids();
        let ghost all = vstd::std_specs::hash::spec_hash_map_iter(&self.processes).remaining();
        let mut gone: Vec<u128> = Vec::new();
        for item in it: self.processes.iter()
            invariant
                m == self@,
                known == system_pids(self.system),
                it.seq() == all,
                all == vstd::std_specs::hash::spec_hash_map_iter(&self.processes).remaining(),
                forall|j: int| 0 <= j < gone@.len() ==> m.contains_key(#[trigger] gone@[j]) && !known.contains(
                    m[gone@[j]].pid,
                ),
                forall|i: int| 0 <= i < it.index() && !known.contains((#[trigger] all[i]).1.pid) ==> gone@.contains(
                    *all[i].0,
                ),
        {
            let (k, p) = item;
            proof {
                assert(item == all[it.index() as int]);
                assert(m.contains_key(*k) && m[*k] == *p);
            }
            let ghost before = gone@;
            if !system_has_process(&self.system, p.pid) {
                gone.push(*k);
                proof {
                    assert(gone@[before.len() as int] == *k);
                }
            }
            proof {
                assert forall|x: u128| before.contains(x) implies gone@.contains(x) by {
                    let j = choose|j: int| 0 <= j < before.len() && before[j] == x;
                    assert(gone@[j] == x);
                }
            }
        }
        self.remove_processes(&gone);
        proof {
            assert forall|k: u128| #[trigger] self@.contains_key(k) <==> m.contains_key(k) && known.contains(m[k].pid) by {
                if m.contains_key(k) && !known.contains(m[k].pid) {
                    assert(all.contains((&k, &m[k])));
                    let i = choose|i: int| 0 <= i < all.len() && all[i] == (&k, &m[k]);
                    assert(gone@.contains(*all[i].0));
                    assert(gone@.to_set().contains(k));
                }
                if gone@.to_set().contains(k) {
                    let j = choose|j: int| 0 <= j < gone@.len() && gone@[j] == k;
                    assert(!known.contains(m[gone@[j]].pid));
                }
            }
        }
    }

    /// The system monitor.
    pub fn system(&self) -> (r: &sysinfo::System)
        ensures
            *r == self.monitor(),
    {
        &self.system
    }

    /// Replaces the registry by the entries of a saved state, when there is
    /// one; later entries win over earlier ones with the same identifier.
    pub fn load_state(&mut self, state: Option<Vec<(u128, ManagedProcess)>>)
        ensures
            state is None ==> final(self)@ == old(self)@,
            state is Some ==> final(self)@ == map_of_entries(state->0@),
            final(self).monitor() == old(self).monitor(),
    {
        match state {
            None => {},
            Some(entries) => {
                let mut processes: HashMap<u128, ManagedProcess> = HashMap::new();
                let ghost all = entries@;
                for e in it: entries
                    invariant
                        it.seq() == all,
                        processes@ == map_of_entries(all.take(it.index())),
                {
                    let (k, p) = e;
                    proof {
                        assert(all.take(it.index() + 1).drop_last() =~= all.take(it.index()));
                        assert(all.take(it.index() + 1).last() == all[it.index()]);
                    }
                    processes.insert(k, p);
                }
                proof {
                    assert(all.take(all.len() as int) =~= all);
                }
                self.processes = processes;
            },
        }
    }
}

/// The identifiers of a walk over the registry, in its order.
pub open spec fn walk_keys(entries: Seq<(&u128, &ManagedProcess)>) -> Seq<u128> {
    entries.map_values(|e: (&u128, &ManagedProcess)| *e.0)
}

/// The signal a kill with the number `signal` sends: that signal when the
/// number names one, else `SIGTERM` (15).
pub open spec fn signal_to_send(signal: i32) -> i32 {
    if is_signal_number(signal) {
        signal
    } else {
        15
    }
}

/// The operating-system identifier (as the signed `pid_t`) and the signal
/// number a kill of `id` sends.
pub open spec fn kill_request_spec(m: Map<u128, ManagedProcess>, id: u128, signal: i32) -> Result<(i32, i32), ManagerError> {
    if m.contains_key(id) {
        Ok((m[id].pid as i32, signal_to_send(signal)))
    } else {
        Err(ManagerError::ProcessNotFound)
    }
}

/// The map holding the entries of `entries`, later ones winning.
pub open spec fn map_of_entries(entries: Seq<(u128, ManagedProcess)>) -> Map<u128, ManagedProcess>
    decreases entries.len(),
{
    if entries.len() == 0 {
        Map::empty()
    } else {
        map_of_entries(entries.drop_last()).insert(entries.last().0, entries.last().1)
    }
}

impl ProcessManager {
    /// Stops the process registered under `id` by sending it the signal
    /// numbered `signal`, or `SIGTERM` when that number names no signal
    /// (exactly the request `kill_request` makes), then unregisters it. Fails,
    /// leaving the registry as it was, when no process is registered under `id`
    /// (no signal is sent) or when the signal cannot be sent.
    pub fn kill_process(&mut self, id: &u128, signal: i32) -> (r: Result<(), ManagerError>)
        ensures
            r == Err::<(), ManagerError>(ManagerError::ProcessNotFound) <==> !old(self)@.contains_key(*id),
            r is Err ==> r == Err::<(), ManagerError>(ManagerError::ProcessNotFound) || r == Err::<(), ManagerError>(
                ManagerError::SignalFailed,
            ),
            r is Ok ==> final(self)@ == old(self)@.remove(*id),
            r is Err ==> final(self)@ == old(self)@,
            final(self).monitor() == old(self).monitor(),
    {
        let (pid, signo) = match self.kill_request(id, signal) {
            Ok(request) => request,
            Err(e) => return Err(e),
        };
        match send_signal(pid, signo) {
            Ok(()) => {},
            Err(_) => return Err(ManagerError::SignalFailed),
        }
        self.processes.remove(id);
        Ok(())
    }

    /// The first port found in `captures`, the texts captured by the port
    /// patterns in order: the first that reads as a `u16`.
    pub fn first_port(captures: &Vec<Option<String>>) -> (r: Option<u16>)
        ensures
            r == first_port_spec(captures@.map_values(|o: Option<String>| opt_view(o))),
    {
        let ghost all = captures@.map_values(|o: Option<String>| opt_view(o));
        let n = captures.len();
        let mut i: usize = 0;
        proof {
            assert(all.skip(0) =~= all);
        }
        while i < n
            invariant
                n == captures@.len(),
                all == captures@.map_values(|o: Option<String>| opt_view(o)),
                i <= n,
                first_port_spec(all) == first_port_spec(all.skip(i as int)),
            decreases n - i,
        {
            proof {
                assert(all.skip(i as int)[0] == opt_view(captures@[i as int]));
                assert(all.skip(i as int).drop_first() =~= all.skip(i + 1));
            }
            match &captures[i] {
                Some(g) => match parse_u16(g.as_str()) {
                    Some(v) => return Some(v),
                    None => {},
                },
                None => {},
            }
            i = i + 1;
        }
        None
    }

    /// The port named in a command line, looked for with the port patterns in
    /// order.
    pub fn detect_port(command: &str) -> (r: Option<u16>)
        ensures
            r == detect_port_spec(command@),
    {
        let patterns = [
            "-p\\s+(\\d+)",
            "--port\\s+(\\d+)",
            "--port=(\\d+)",
            ":(\\d{4,5})\\b",
            "PORT=(\\d+)",
        ];
        let mut captures: Vec<Option<String>> = Vec::new();
        let mut i: usize = 0;
        while i < 5
            invariant
                i <= 5,
                patterns@.map_values(|p: &str| p@) == port_patterns(),
                captures@.len() == i,
                forall|j: int| 0 <= j < i ==> opt_view(#[trigger] captures@[j]) == regex_group1(port_patterns()[j], command@),
            decreases 5 - i,
        {
            captures.push(capture_group1(patterns[i], command));
            proof {
                assert(patterns@.map_values(|p: &str| p@)[i as int] == patterns@[i as int]@);
            }
            i = i + 1;
        }
        proof {
            assert(captures@.map_values(|o: Option<String>| opt_view(o)) =~= port_patterns().map_values(
                |p: Seq<char>| regex_group1(p, command@),
            ));
        }
        Self::first_port(&captures)
    }

    /// A process name from the final component of the working directory (as
    /// `Path::file_name` gives it), the script's name and the port.
    pub fn format_name(dir_name: Option<String>, script_name: &str, port: Option<u16>) -> (r: String)
        ensures
            r@ == name_spec(opt_view(dir_name), script_name@, port),
    {
        let mut r = match dir_name {
            Some(n) => n,
            None => String::from_str("unknown"),
        };
        push_char(&mut r, '/');
        r.append(script_name);
        match port {
            Some(p) => {
                push_char(&mut r, '/');
                push_decimal(&mut r, p as u64);
            },
            None => {},
        }
        r
    }

    /// The name given to a process of script `script_name` run in `cwd`:
    /// `dir/script/port`, or `dir/script` without a port, where `dir` is the
    /// final component of `cwd` (`unknown` when it has none).
    pub fn generate_name(script_name: &str, cwd: &str, port: Option<u16>) -> (r: String)
        ensures
            r@ == name_spec(file_name_of(cwd@), script_name@, port),
    {
        Self::format_name(file_name(cwd), script_name, port)
    }
}

impl Default for ProcessManager {
    /// Same as `ProcessManager::new`.
    fn default() -> (r: Self)
        ensures
            r@ == Map::<u128, ManagedProcess>::empty(),
    {
        Self::new()
    }
}

} // verus!

//! The state and decisions of the terminal interface: which list has focus,
//! which item of each list is selected, and what a key press asks for.

use std::collections::HashSet;
use vstd::prelude::*;
use vstd::std_specs::iter::IteratorSpec;
use crate::models::process::ManagedProcess;
use crate::models::script::Script;
use crate::process::manager::{ManagerError, ProcessManager, walk_keys};

verus! {

broadcast use vstd::std_specs::hash::group_hash_axioms;

/// The two lists of the interface.
#[derive(Clone, Copy, Debug, PartialEq, Eq, Structural)]
pub enum Section {
    Processes,
    Scripts,
}

/// A key press, as far as the interface distinguishes them.
#[derive(Clone, Copy, Debug, PartialEq, Eq, Structural)]
pub enum Key {
    /// `q`
    Quit,
    /// Tab
    Tab,
    /// `j` or the down arrow
    Down,
    /// `k` or the up arrow
    Up,
    /// `d`
    Kill,
    /// Enter
    Enter,
    /// Space
    Mark,
    /// `a`
    MarkAll,
    /// `i`
    Detail,
    /// Esc
    Escape,
    /// Any other key
    Other,
}

/// What a key press asks the caller to do beyond changing the interface state.
#[derive(Clone, Copy, Debug, PartialEq, Eq, Structural)]
pub enum KeyAction {
    /// Nothing more.
    Nothing,
    /// Stop the selected process.
    KillSelected,
    /// Stop every marked process.
    KillMarked,
    /// Start the selected script.
    RunSelected,
}

/// The selection after moving down a list of `len` items: the next item,
/// wrapping to the first; the first when nothing is selected; unchanged in an
/// empty list.
pub open spec fn next_selection(sel: Option<usize>, len: nat) -> Option<usize> {
    if len == 0 {
        sel
    } else {
        match sel {
            Some(i) => Some(((i + 1) % (len as int)) as usize),
            None => Some(0),
        }
    }
}

/// The selection after moving up a list of `len` items: the previous item,
/// wrapping to the last; the first when nothing is selected; unchanged in an
/// empty list.
pub open spec fn previous_selection(sel: Option<usize>, len: nat) -> Option<usize> {
    if len == 0 {
        sel
    } else {
        match sel {
            Some(i) => Some(if i == 0 { (len - 1) as usize } else { (i - 1) as usize }),
            None => Some(0),
        }
    }
}

/// The selection after the selected item `idx` was removed, leaving `len` items.
pub open spec fn selection_after_removal(sel: Option<usize>, idx: usize, len: nat) -> Option<usize> {
    if len == 0 {
        None
    } else if idx >= len {
        Some((len - 1) as usize)
    } else {
        sel
    }
}

/// The selection kept within a list of `len` items: nothing in an empty list,
/// the last item when the selection is past the end, else unchanged.
pub open spec fn selection_within(sel: Option<usize>, len: nat) -> Option<usize> {
    if len == 0 {
        None
    } else {
        match sel {
            Some(i) => if i >= len {
                Some((len - 1) as usize)
            } else {
                Some(i)
            },
            None => None,
        }
    }
}

/// How often, in milliseconds, the interface reloads the system monitor.
pub const REFRESH_INTERVAL_MS: u128 = 1000;

/// Whether the registry is due to be refreshed, `elapsed_ms` milliseconds
/// after the last refresh: once a full interval has passed.
pub fn refresh_due(elapsed_ms: u128) -> (r: bool)
    ensures
        r == (elapsed_ms >= REFRESH_INTERVAL_MS),
{
    elapsed_ms >= REFRESH_INTERVAL_MS
}

/// The terminal interface's state: the registry, the scripts of the current
/// project, which list has focus, the selection in each list, the marked
/// processes, whether the detail view is open and whether the user asked to
/// quit.
pub struct App {
    manager: ProcessManager,
    scripts: Vec<Script>,
    selected_section: Section,
    process_selected: Option<usize>,
    script_selected: Option<usize>,
    marked: HashSet<u128>,
    detail_open: bool,
    should_quit: bool,
}

impl App {
    /// The registered processes.
    pub open spec fn processes(&self) -> Map<u128, ManagedProcess> {
        self.registry()@
    }

    /// The registry, with its walk order.
    pub closed spec fn registry(&self) -> ProcessManager {
        self.manager
    }

    /// The identifiers of the marked processes.
    pub closed spec fn marks(&self) -> Set<u128> {
        self.marked@
    }

    /// Whether the detail view of the selected process is open.
    pub closed spec fn detail_shown(&self) -> bool {
        self.detail_open
    }

    /// The marked identifiers under which a process is registered.
    pub open spec fn marked_registered(&self) -> Set<u128> {
        self.marks().intersect(self.processes().dom())
    }

    /// The scripts of the current project.
    pub closed spec fn script_list(&self) -> Seq<Script> {
        self.scripts@
    }

    /// The list that has focus.
    pub closed spec fn section_spec(&self) -> Section {
        self.selected_section
    }

    /// The selected process, by position in the process list.
    pub closed spec fn process_sel(&self) -> Option<usize> {
        self.process_selected
    }

    /// The selected script, by position in the script list.
    pub closed spec fn script_sel(&self) -> Option<usize> {
        self.script_selected
    }

    /// Whether the user asked to quit.
    pub closed spec fn quitting(&self) -> bool {
        self.should_quit
    }

    /// The process identifiers the registry's system monitor currently knows.
    pub open spec fn known_pids(&self) -> Set<u32> {
        self.registry().known_pids()
    }

    /// The interface over a registry and the scripts of the current project:
    /// the first process is selected when there is one; otherwise the script
    /// list gets focus with its first script selected, when there is one.
    pub fn new(manager: ProcessManager, scripts: Vec<Script>) -> (r: Self)
        ensures
            r.processes() == manager@,
            r.script_list() == scripts@,
            r.registry() == manager,
            r.marks() == Set::<u128>::empty(),
            !r.detail_shown(),
            !r.quitting(),
            manager@.len() > 0 ==> r.section_spec() == Section::Processes && r.process_sel() == Some(0usize)
                && r.script_sel() is None,
            manager@.len() == 0 && scripts@.len() > 0 ==> r.section_spec() == Section::Scripts
                && r.process_sel() is None && r.script_sel() == Some(0usize),
            manager@.len() == 0 && scripts@.len() == 0 ==> r.section_spec() == Section::Processes
                && r.process_sel() is None && r.script_sel() is None,
    {
        let process_count = manager.list_processes().len();
        let script_count = scripts.len();
        let mut app = App {
            manager,
            scripts,
            selected_section: Section::Processes,
            process_selected: None,
            script_selected: None,
            marked: HashSet::new(),
            detail_open: false,
            should_quit: false,
        };
        if process_count > 0 {
            app.process_selected = Some(0);
        } else if script_count > 0 {
            app.selected_section = Section::Scripts;
            app.script_selected = Some(0);
        }
        app
    }

    /// The registry.
    pub fn manager(&self) -> (r: &ProcessManager)
        ensures
            r@ == self.processes(),
            *r == self.registry(),
    {
        &self.manager
    }

    /// The scripts of the current project.
    pub fn scripts(&self) -> (r: &Vec<Script>)
        ensures
            r@ == self.script_list(),
    {
        &self.scripts
    }

    /// The list that has focus.
    pub fn section(&self) -> (r: Section)
        ensures
            r == self.section_spec(),
    {
        self.selected_section
    }

    /// The selected process, by position in the process list.
    pub fn process_selection(&self) -> (r: Option<usize>)
        ensures
            r == self.process_sel(),
    {
        self.process_selected
    }

    /// The selected script, by position in the script list.
    pub fn script_selection(&self) -> (r: Option<usize>)
        ensures
            r == self.script_sel(),
    {
        self.script_selected
    }

    /// Whether the user asked to quit.
    pub fn should_quit(&self) -> (r: bool)
        ensures
            r == self.quitting(),
    {
        self.should_quit
    }

    /// The position of the process the interface acts on: the selection in the
    /// process list, when that list has focus and the selection is an item.
    pub open spec fn target_process(&self) -> Option<usize> {
        match self.process_sel() {
            Some(i) => if self.section_spec() == Section::Processes && i < self.processes().len() {
                Some(i)
            } else {
                None
            },
            None => None,
        }
    }

    /// The position of the script the interface acts on: the selection in the
    /// script list, when that list has focus and the selection is an item.
    pub open spec fn target_script(&self) -> Option<usize> {
        match self.script_sel() {
            Some(i) => if self.section_spec() == Section::Scripts && i < self.script_list().len() {
                Some(i)
            } else {
                None
            },
            None => None,
        }
    }

    /// The number of items in the list `section`.
    pub open spec fn list_len(&self, section: Section) -> nat {
        match section {
            Section::Processes => self.processes().len(),
            Section::Scripts => self.script_list().len(),
        }
    }

    fn list_len_exec(&self, section: Section) -> (r: usize)
        ensures
            r == self.list_len(section),
    {
        match section {
            Section::Processes => self.manager.list_processes().len(),
            Section::Scripts => self.scripts.len(),
        }
    }

    /// Moves focus to the other list when that list is not empty, selecting its
    /// first item if nothing is selected there yet.
    pub fn switch_section(&mut self)
        ensures
            final(self).registry() == old(self).registry(),
            final(self).processes() == old(self).processes(),
            final(self).script_list() == old(self).script_list(),
            final(self).quitting() == old(self).quitting(),
            final(self).marks() == old(self).marks(),
            final(self).detail_shown() == old(self).detail_shown(),
            ({
                let other = match old(self).section_spec() {
                    Section::Processes => Section::Scripts,
                    Section::Scripts => Section::Processes,
                };
                if old(self).list_len(other) > 0 {
                    &&& final(self).section_spec() == other
                    &&& other == Section::Scripts ==> final(self).process_sel() == old(self).process_sel()
                        && final(self).script_sel() == (if old(self).script_sel() is None { Some(0usize) } else { old(self).script_sel() })
                    &&& other == Section::Processes ==> final(self).script_sel() == old(self).script_sel()
                        && final(self).process_sel() == (if old(self).process_sel() is None { Some(0usize) } else { old(self).process_sel() })
                } else {
                    &&& final(self).section_spec() == old(self).section_spec()
                    &&& final(self).process_sel() == old(self).process_sel()
                    &&& final(self).script_sel() == old(self).script_sel()
                }
            }),
    {
        match self.selected_section {
            Section::Processes => {
                if self.scripts.len() > 0 {
                    if self.script_selected.is_none() {
                        self.script_selected = Some(0);
                    }
                    self.selected_section = Section::Scripts;
                }
            },
            Section::Scripts => {
                if self.manager.list_processes().len() > 0 {
                    if self.process_selected.is_none() {
                        self.process_selected = Some(0);
                    }
                    self.selected_section = Section::Processes;
                }
            },
        }
    }

    /// Moves the selection of the focused list one item down, wrapping to the
    /// first item.
    pub fn next_item(&mut self)
        ensures
            final(self).registry() == old(self).registry(),
            final(self).processes() == old(self).processes(),
            final(self).script_list() == old(self).script_list(),
            final(self).quitting() == old(self).quitting(),
            final(self).marks() == old(self).marks(),
            final(self).detail_shown() == old(self).detail_shown(),
            final(self).section_spec() == old(self).section_spec(),
            old(self).section_spec() == Section::Processes ==> final(self).process_sel() == next_selection(
                old(self).process_sel(),
                old(self).list_len(Section::Processes),
            ) && final(self).script_sel() == old(self).script_sel(),
            old(self).section_spec() == Section::Scripts ==> final(self).script_sel() == next_selection(
                old(self).script_sel(),
                old(self).list_len(Section::Scripts),
            ) && final(self).process_sel() == old(self).process_sel(),
    {
        let section = self.selected_section;
        let len = self.list_len_exec(section);
        if len == 0 {
            return;
        }
        let current = match section {
            Section::Processes => self.process_selected,
            Section::Scripts => self.script_selected,
        };
        let i = match current {
            Some(i) => {
                proof {
                    vstd::arithmetic::div_mod::lemma_add_mod_noop_right(1, i as int, len as int);
                }
                (i % len + 1) % len
            },
            None => 0,
        };
        match section {
            Section::Processes => self.process_selected = Some(i),
            Section::Scripts => self.script_selected = Some(i),
        }
    }

    /// Moves the selection of the focused list one item up, wrapping to the
    /// last item.
    pub fn previous_item(&mut self)
        ensures
            final(self).registry() == old(self).registry(),
            final(self).processes() == old(self).processes(),
            final(self).script_list() == old(self).script_list(),
            final(self).quitting() == old(self).quitting(),
            final(self).marks() == old(self).marks(),
            final(self).detail_shown() == old(self).detail_shown(),
            final(self).section_spec() == old(self).section_spec(),
            old(self).section_spec() == Section::Processes ==> final(self).process_sel() == previous_selection(
                old(self).process_sel(),
                old(self).list_len(Section::Processes),
            ) && final(self).script_sel() == old(self).script_sel(),
            old(self).section_spec() == Section::Scripts ==> final(self).script_sel() == previous_selection(
                old(self).script_sel(),
                old(self).list_len(Section::Scripts),
            ) && final(self).process_sel() == old(self).process_sel(),
    {
        let section = self.selected_section;
        let len = self.list_len_exec(section);
        if len == 0 {
            return;
        }
        let current = match section {
            Section::Processes => self.process_selected,
            Section::Scripts => self.script_selected,
        };
        let i = match current {
            Some(i) => if i == 0 {
                len - 1
            } else {
                i - 1
            },
            None => 0,
        };
        match section {
            Section::Processes => self.process_selected = Some(i),
            Section::Scripts => self.script_selected = Some(i),
        }
    }

    /// Stops the selected process with `SIGTERM` and unregisters it, when the
    /// process list has focus and its selection is an item: the process at
    /// that position of the registry's walk, which is the order in which
    /// `list_processes` shows them. The kill is `kill_process` of that
    /// process's identifier with signal 15. Then the selection is kept on an
    /// existing item. Returns whether a process was stopped; on an error
    /// nothing changes.
    pub fn kill_selected_process(&mut self) -> (r: Result<bool, ManagerError>)
        ensures
            final(self).script_list() == old(self).script_list(),
            final(self).quitting() == old(self).quitting(),
            final(self).marks() == old(self).marks(),
            final(self).detail_shown() == old(self).detail_shown(),
            final(self).section_spec() == old(self).section_spec(),
            final(self).script_sel() == old(self).script_sel(),
            old(self).target_process() is None ==> r == Ok::<bool, ManagerError>(false)
                && final(self).processes() == old(self).processes() && final(self).process_sel() == old(self).process_sel(),
            r is Err ==> final(self).processes() == old(self).processes() && final(self).process_sel() == old(self).process_sel(),
            old(self).target_process() matches Some(idx) ==> ({
                let id = old(self).processes()[walk_keys(old(self).registry().walk().remaining())[idx as int]].id;
                &&& r is Ok ==> r == Ok::<bool, ManagerError>(true) && old(self).processes().contains_key(id)
                    && final(self).processes() == old(self).processes().remove(id)
                    && final(self).process_sel() == selection_after_removal(old(self).process_sel(), idx, final(self).processes().len())
                &&& !old(self).processes().contains_key(id) ==> r == Err::<bool, ManagerError>(ManagerError::ProcessNotFound)
            }),
    {
        if self.selected_section != Section::Processes {
            return Ok(false);
        }
        let idx = match self.process_selected {
            Some(idx) => idx,
            None => return Ok(false),
        };
        let entries = self.manager.state_entries();
        if idx >= entries.len() {
            return Ok(false);
        }
        let id = entries[idx].1.id;
        proof {
            assert(entries@[idx as int].0 == walk_keys(self.manager.walk().remaining())[idx as int]);
            assert(self.manager@.contains_key(entries@[idx as int].0) && self.manager@[entries@[idx as int].0]
                == *entries@[idx as int].1);
        }
        match self.manager.kill_process(&id, 15) {
            Ok(()) => {},
            Err(e) => return Err(e),
        }
        let new_len = self.manager.list_processes().len();
        if new_len == 0 {
            self.process_selected = None;
        } else if idx >= new_len {
            self.process_selected = Some(new_len - 1);
        }
        Ok(true)
    }

    /// The selected script, when the script list has focus and its selection is
    /// an item.
    pub fn selected_script(&self) -> (r: Option<&Script>)
        ensures
            match self.target_script() {
                Some(i) => r == Some(&self.script_list()[i as int]),
                None => r is None,
            },
    {
        if self.selected_section != Section::Scripts {
            return None;
        }
        match self.script_selected {
            Some(idx) => if idx < self.scripts.len() {
                Some(&self.scripts[idx])
            } else {
                None
            },
            None => None,
        }
    }

    /// Registers a process that was started from the interface.
    pub fn add_process(&mut self, process: ManagedProcess)
        ensures
            final(self).processes() == old(self).processes().insert(process.id, process),
            final(self).script_list() == old(self).script_list(),
            final(self).quitting() == old(self).quitting(),
            final(self).marks() == old(self).marks(),
            final(self).detail_shown() == old(self).detail_shown(),
            final(self).section_spec() == old(self).section_spec(),
            final(self).process_sel() == old(self).process_sel(),
            final(self).script_sel() == old(self).script_sel(),
    {
        self.manager.add_process(process);
    }

    /// Reloads the system monitor and forgets the processes whose identifiers
    /// the reloaded monitor no longer knows; the other processes, and the
    /// selections, are left as they are.
    pub fn refresh(&mut self)
        ensures
            final(self).processes().submap_of(old(self).processes()),
            forall|k: u128| #[trigger] final(self).processes().contains_key(k) <==> old(self).processes().contains_key(k)
                && final(self).known_pids().contains(old(self).processes()[k].pid),
            final(self).script_list() == old(self).script_list(),
            final(self).quitting() == old(self).quitting(),
            final(self).marks() == old(self).marks(),
            final(self).detail_shown() == old(self).detail_shown(),
            final(self).section_spec() == old(self).section_spec(),
            final(self).process_sel() == old(self).process_sel(),
            final(self).script_sel() == old(self).script_sel(),
    {
        self.manager.refresh();
    }

    /// Whether the process registered under `id` is marked.
    pub fn is_marked(&self, id: &u128) -> (r: bool)
        ensures
            r == self.marks().contains(*id),
    {
        self.marked.contains(id)
    }

    /// Whether the detail view is open.
    pub fn detail_open(&self) -> (r: bool)
        ensures
            r == self.detail_shown(),
    {
        self.detail_open
    }

    /// The selected process, when the process list has focus and its
    /// selection is an item: the process at that position of the registry's
    /// walk, the order in which `list_processes` shows them.
    pub fn selected_process(&self) -> (r: Option<&ManagedProcess>)
        ensures
            match self.target_process() {
                Some(i) => r matches Some(p) && *p == self.processes()[walk_keys(self.registry().walk().remaining())[i as int]],
                None => r is None,
            },
    {
        if self.selected_section != Section::Processes {
            return None;
        }
        match self.process_selected {
            Some(idx) => {
                let list = self.manager.list_processes();
                if idx < list.len() {
                    let p: &ManagedProcess = list[idx];
                    Some(p)
                } else {
                    None
                }
            },
            None => None,
        }
    }

    /// Marks the selected process, or unmarks it when it is already marked,
    /// when the process list has focus and its selection is an item.
    pub fn toggle_mark(&mut self)
        ensures
            final(self).registry() == old(self).registry(),
            final(self).script_list() == old(self).script_list(),
            final(self).quitting() == old(self).quitting(),
            final(self).section_spec() == old(self).section_spec(),
            final(self).process_sel() == old(self).process_sel(),
            final(self).script_sel() == old(self).script_sel(),
            final(self).detail_shown() == old(self).detail_shown(),
            match old(self).target_process() {
                Some(idx) => {
                    let k = walk_keys(old(self).registry().walk().remaining())[idx as int];
                    final(self).marks() == if old(self).marks().contains(k) {
                        old(self).marks().remove(k)
                    } else {
                        old(self).marks().insert(k)
                    }
                },
                None => final(self).marks() == old(self).marks(),
            },
    {
        if self.selected_section != Section::Processes {
            return;
        }
        let idx = match self.process_selected {
            Some(i) => i,
            None => return,
        };
        let entries = self.manager.state_entries();
        if idx >= entries.len() {
            return;
        }
        let k = entries[idx].0;
        if self.marked.contains(&k) {
            self.marked.remove(&k);
        } else {
            self.marked.insert(k);
        }
    }

    /// Marks every registered process, or clears the marks when every
    /// registered process is already marked.
    pub fn toggle_all_marks(&mut self)
        ensures
            final(self).registry() == old(self).registry(),
            final(self).script_list() == old(self).script_list(),
            final(self).quitting() == old(self).quitting(),
            final(self).section_spec() == old(self).section_spec(),
            final(self).process_sel() == old(self).process_sel(),
            final(self).script_sel() == old(self).script_sel(),
            final(self).detail_shown() == old(self).detail_shown(),
            old(self).processes().dom().subset_of(old(self).marks()) ==> final(self).marks() == Set::<u128>::empty(),
            !old(self).processes().dom().subset_of(old(self).marks()) ==> final(self).marks() == old(self).processes().dom(),
    {
        let entries = self.manager.state_entries();
        let n = entries.len();
        let mut all_marked = true;
        let mut fresh: HashSet<u128> = HashSet::new();
        let mut i: usize = 0;
        while i < n
            invariant
                n == entries@.len(),
                i <= n,
                all_marked <==> forall|j: int| 0 <= j < i ==> self.marked@.contains(#[trigger] entries@[j].0),
                forall|k: u128| fresh@.contains(k) <==> exists|j: int| 0 <= j < i && #[trigger] entries@[j].0 == k,
            decreases n - i,
        {
            let k = entries[i].0;
            if !self.marked.contains(&k) {
                all_marked = false;
            }
            fresh.insert(k);
            proof {
                assert forall|x: u128| fresh@.contains(x) <==> exists|j: int| 0 <= j < i + 1 && #[trigger] entries@[j].0 == x by {
                    if x == k {
                        assert(entries@[i as int].0 == x);
                    }
                }
            }
            i = i + 1;
        }
        proof {
            let m = self.manager@;
            assert(all_marked <==> m.dom().subset_of(self.marked@)) by {
                if all_marked {
                    assert forall|k: u128| m.dom().contains(k) implies self.marked@.contains(k) by {
                        let j = choose|j: int| 0 <= j < entries@.len() && #[trigger] entries@[j].0 == k;
                    }
                } else {
                    let j = choose|j: int| 0 <= j < i && !self.marked@.contains(#[trigger] entries@[j].0);
                    assert(m.contains_key(entries@[j].0));
                }
            }
            assert(fresh@ =~= m.dom()) by {
                assert forall|k: u128| fresh@.contains(k) <==> m.dom().contains(k) by {
                    if m.dom().contains(k) {
                        let j = choose|j: int| 0 <= j < entries@.len() && #[trigger] entries@[j].0 == k;
                    }
                    if fresh@.contains(k) {
                        let j = choose|j: int| 0 <= j < i && #[trigger] entries@[j].0 == k;
                        assert(m.contains_key(entries@[j].0));
                    }
                }
            }
        }
        if all_marked {
            self.marked.clear();
        } else {
            self.marked = fresh;
        }
    }

    /// Esc: closes the detail view when it is open, otherwise clears the
    /// marks.
    pub fn escape(&mut self)
        ensures
            final(self).registry() == old(self).registry(),
            final(self).script_list() == old(self).script_list(),
            final(self).quitting() == old(self).quitting(),
            final(self).section_spec() == old(self).section_spec(),
            final(self).process_sel() == old(self).process_sel(),
            final(self).script_sel() == old(self).script_sel(),
            !final(self).detail_shown(),
            old(self).detail_shown() ==> final(self).marks() == old(self).marks(),
            !old(self).detail_shown() ==> final(self).marks() == Set::<u128>::empty(),
    {
        if self.detail_open {
            self.detail_open = false;
        } else {
            self.marked.clear();
        }
    }

    /// Opens the detail view of the selected process, when the process list
    /// has focus and its selection is an item.
    pub fn open_detail(&mut self)
        ensures
            final(self).registry() == old(self).registry(),
            final(self).script_list() == old(self).script_list(),
            final(self).quitting() == old(self).quitting(),
            final(self).section_spec() == old(self).section_spec(),
            final(self).process_sel() == old(self).process_sel(),
            final(self).script_sel() == old(self).script_sel(),
            final(self).marks() == old(self).marks(),
            final(self).detail_shown() == (old(self).detail_shown() || old(self).target_process() is Some),
    {
        if self.selected_section == Section::Processes {
            if let Some(i) = self.process_selected {
                if i < self.list_len_exec(Section::Processes) {
                    self.detail_open = true;
                }
            }
        }
    }

    /// Whether a process is registered under some marked identifier.
    pub fn has_marked_processes(&self) -> (r: bool)
        ensures
            r == !self.marked_registered().is_empty(),
    {
        let ghost all = vstd::std_specs::hash::spec_hash_keys_iter(&self.marked).remaining();
        for k in it: self.marked.iter()
            invariant
                it.seq() == all,
                all == vstd::std_specs::hash::spec_hash_keys_iter(&self.marked).remaining(),
                forall|j: int| 0 <= j < it.index() ==> !self.processes().contains_key(*(#[trigger] all[j])),
        {
            proof {
                assert(k == all[it.index() as int]);
                assert(all.unref()[it.index() as int] == *k);
                assert(all.unref().to_set().contains(*k));
            }
            if self.manager.get_process(k).is_some() {
                proof {
                    assert(self.marked_registered().contains(*k));
                }
                return true;
            }
        }
        proof {
            assert forall|x: u128| !self.marked_registered().contains(x) by {
                if self.marks().contains(x) {
                    assert(all.unref().to_set().contains(x));
                    let j = choose|j: int| 0 <= j < all.unref().len() && all.unref()[j] == x;
                    assert(*all[j] == x);
                }
            }
            assert(self.marked_registered() =~= Set::<u128>::empty());
        }
        false
    }

    /// Stops every marked process that is registered, with `SIGTERM`, and
    /// unregisters it; then clears the marks and keeps the selection on an
    /// existing item. Each kill is `kill_process` of a marked identifier with
    /// signal 15. The first kill that fails ends the batch: the processes
    /// stopped before it stay unregistered, and the marks and the selection
    /// are left as they were.
    pub fn kill_marked_processes(&mut self) -> (r: Result<(), ManagerError>)
        ensures
            final(self).script_list() == old(self).script_list(),
            final(self).quitting() == old(self).quitting(),
            final(self).section_spec() == old(self).section_spec(),
            final(self).script_sel() == old(self).script_sel(),
            final(self).detail_shown() == old(self).detail_shown(),
            r is Ok ==> final(self).processes() == old(self).processes().remove_keys(old(self).marks())
                && final(self).marks() == Set::<u128>::empty()
                && final(self).process_sel() == selection_within(old(self).process_sel(), final(self).processes().len()),
            r is Err ==> r == Err::<(), ManagerError>(ManagerError::SignalFailed)
                && final(self).marks() == old(self).marks() && final(self).process_sel() == old(self).process_sel()
                && exists|done: Set<u128>| done.subset_of(old(self).marks())
                    && final(self).processes() == #[trigger] old(self).processes().remove_keys(done),
            r is Err ==> exists|id: u128| #[trigger] old(self).marked_registered().contains(id)
                && final(self).processes().contains_key(id),
            old(self).marked_registered().is_empty() ==> r is Ok,
    {
        let ghost before = self.manager@;
        let ghost all = vstd::std_specs::hash::spec_hash_keys_iter(&self.marked).remaining();
        let mut ids: Vec<u128> = Vec::new();
        for k in it: self.marked.iter()
            invariant
                it.seq() == all,
                all == vstd::std_specs::hash::spec_hash_keys_iter(&self.marked).remaining(),
                ids@.len() == it.index(),
                forall|j: int| 0 <= j < it.index() ==> #[trigger] ids@[j] == *all[j],
        {
            proof {
                assert(k == all[it.index() as int]);
            }
            ids.push(*k);
        }
        proof {
            assert(ids@ =~= all.unref());
            assert(ids@.to_set() =~= self.marked@);
        }
        let n = ids.len();
        let mut i: usize = 0;
        while i < n
            invariant
                n == ids@.len(),
                i <= n,
                ids@.to_set() == self.marked@,
                self.marked@ == old(self).marked@,
                self.process_selected == old(self).process_selected,
                self.scripts@ == old(self).scripts@,
                self.should_quit == old(self).should_quit,
                self.selected_section == old(self).selected_section,
                self.script_selected == old(self).script_selected,
                self.detail_open == old(self).detail_open,
                before == old(self).manager@,
                self.manager@ == before.remove_keys(ids@.take(i as int).to_set()),
            decreases n - i,
        {
            let id = ids[i];
            let ghost cur = self.manager@;
            proof {
                assert(ids@.take(i + 1) =~= ids@.take(i as int).push(id));
                ids@.take(i as int).lemma_push_to_set_commute(id);
            }
            if self.manager.get_process(&id).is_some() {
                match self.manager.kill_process(&id, 15) {
                    Ok(()) => {},
                    Err(e) => {
                        proof {
                            assert(ids@.take(i as int).to_set().subset_of(ids@.to_set())) by {
                                assert forall|x: u128| ids@.take(i as int).to_set().contains(x) implies ids@.to_set().contains(x) by {
                                    let j = choose|j: int| 0 <= j < i && ids@.take(i as int)[j] == x;
                                    assert(ids@[j] == x);
                                }
                            }
                            let done = ids@.take(i as int).to_set();
                            assert(self.processes() == old(self).processes().remove_keys(done));
                            assert(done.subset_of(old(self).marks()));
                            assert(ids@.to_set().contains(id)) by {
                                assert(ids@[i as int] == id);
                            }
                            assert(cur.contains_key(id));
                            assert(before.contains_key(id));
                            assert(old(self).marked_registered().contains(id));
                            assert(self.processes().contains_key(id));
                        }
                        return Err(e);
                    },
                }
                proof {
                    assert(self.manager@ =~= before.remove_keys(ids@.take(i + 1).to_set()));
                }
            } else {
                proof {
                    assert(self.manager@ =~= before.remove_keys(ids@.take(i + 1).to_set()));
                }
            }
            i = i + 1;
        }
        proof {
            assert(ids@.take(n as int) =~= ids@);
        }
        self.marked.clear();
        let new_len = self.manager.list_processes().len();
        if new_len == 0 {
            self.process_selected = None;
        } else {
            match self.process_selected {
                Some(s) => if s >= new_len {
                    self.process_selected = Some(new_len - 1);
                },
                None => {},
            }
        }
        Ok(())
    }

    /// Handles a key press: `q` asks to quit; Tab switches lists; down and up
    /// move the selection; Space marks or unmarks the selected process and `a`
    /// marks all (or clears all marks); `i` opens the detail view, and so does
    /// Enter on the process list; Esc closes the detail view or clears the
    /// marks; `d` asks the caller to stop the marked processes, or the selected
    /// one when no registered process is marked; Enter on the script list asks
    /// the caller to start the selected script.
    pub fn handle_key(&mut self, key: Key) -> (r: KeyAction)
        ensures
            final(self).registry() == old(self).registry(),
            final(self).script_list() == old(self).script_list(),
            key != Key::Quit ==> final(self).quitting() == old(self).quitting(),
            key == Key::Quit ==> final(self).quitting(),
            (key == Key::Quit || key == Key::Kill || key == Key::Other || (key == Key::Enter && old(self).section_spec()
                == Section::Scripts)) ==> {
                &&& final(self).section_spec() == old(self).section_spec()
                &&& final(self).process_sel() == old(self).process_sel()
                &&& final(self).script_sel() == old(self).script_sel()
                &&& final(self).marks() == old(self).marks()
                &&& final(self).detail_shown() == old(self).detail_shown()
            },
            (key == Key::Quit || key == Key::Tab || key == Key::Down || key == Key::Up || key == Key::Mark || key
                == Key::MarkAll || key == Key::Detail || key == Key::Escape || key == Key::Other) ==> r
                == KeyAction::Nothing,
            key == Key::Kill ==> r == (if old(self).marked_registered().is_empty() {
                KeyAction::KillSelected
            } else {
                KeyAction::KillMarked
            }),
            key == Key::Enter ==> r == (if old(self).section_spec() == Section::Scripts {
                KeyAction::RunSelected
            } else {
                KeyAction::Nothing
            }),
            key == Key::Tab ==> final(self).marks() == old(self).marks() && final(self).detail_shown() == old(self).detail_shown() && ({
                let other = match old(self).section_spec() {
                    Section::Processes => Section::Scripts,
                    Section::Scripts => Section::Processes,
                };
                if old(self).list_len(other) > 0 {
                    &&& final(self).section_spec() == other
                    &&& other == Section::Scripts ==> final(self).process_sel() == old(self).process_sel()
                        && final(self).script_sel() == (if old(self).script_sel() is None {
                        Some(0usize)
                    } else {
                        old(self).script_sel()
                    })
                    &&& other == Section::Processes ==> final(self).script_sel() == old(self).script_sel()
                        && final(self).process_sel() == (if old(self).process_sel() is None {
                        Some(0usize)
                    } else {
                        old(self).process_sel()
                    })
                } else {
                    &&& final(self).section_spec() == old(self).section_spec()
                    &&& final(self).process_sel() == old(self).process_sel()
                    &&& final(self).script_sel() == old(self).script_sel()
                }
            }),
            (key == Key::Down || key == Key::Up) ==> final(self).section_spec() == old(self).section_spec()
                && final(self).marks() == old(self).marks() && final(self).detail_shown() == old(self).detail_shown(),
            key == Key::Down && old(self).section_spec() == Section::Processes ==> final(self).process_sel()
                == next_selection(old(self).process_sel(), old(self).list_len(Section::Processes))
                && final(self).script_sel() == old(self).script_sel(),
            key == Key::Down && old(self).section_spec() == Section::Scripts ==> final(self).script_sel()
                == next_selection(old(self).script_sel(), old(self).list_len(Section::Scripts))
                && final(self).process_sel() == old(self).process_sel(),
            key == Key::Up && old(self).section_spec() == Section::Processes ==> final(self).process_sel()
                == previous_selection(old(self).process_sel(), old(self).list_len(Section::Processes))
                && final(self).script_sel() == old(self).script_sel(),
            key == Key::Up && old(self).section_spec() == Section::Scripts ==> final(self).script_sel()
                == previous_selection(old(self).script_sel(), old(self).list_len(Section::Scripts))
                && final(self).process_sel() == old(self).process_sel(),
            (key == Key::Mark || key == Key::MarkAll || key == Key::Detail || key == Key::Escape || (key == Key::Enter
                && old(self).section_spec() == Section::Processes)) ==> final(self).section_spec() == old(self).section_spec() && final(self).process_sel() == old(self).process_sel() && final(self).script_sel()
                == old(self).script_sel(),
            key == Key::Mark ==> final(self).detail_shown() == old(self).detail_shown() && match old(self).target_process() {
                Some(idx) => {
                    let k = walk_keys(old(self).registry().walk().remaining())[idx as int];
                    final(self).marks() == if old(self).marks().contains(k) {
                        old(self).marks().remove(k)
                    } else {
                        old(self).marks().insert(k)
                    }
                },
                None => final(self).marks() == old(self).marks(),
            },
            key == Key::MarkAll ==> final(self).detail_shown() == old(self).detail_shown() && final(self).marks() == (
            if old(self).processes().dom().subset_of(old(self).marks()) {
                Set::<u128>::empty()
            } else {
                old(self).processes().dom()
            }),
            (key == Key::Detail || (key == Key::Enter && old(self).section_spec() == Section::Processes)) ==> final(self).marks() == old(self).marks() && final(self).detail_shown() == (old(self).detail_shown()
                || old(self).target_process() is Some),
            key == Key::Escape ==> !final(self).detail_shown() && final(self).marks() == (if old(self).detail_shown() {
                old(self).marks()
            } else {
                Set::<u128>::empty()
            }),
    {
        match key {
            Key::Quit => {
                self.should_quit = true;
                KeyAction::Nothing
            },
            Key::Tab => {
                self.switch_section();
                KeyAction::Nothing
            },
            Key::Down => {
                self.next_item();
                KeyAction::Nothing
            },
            Key::Up => {
                self.previous_item();
                KeyAction::Nothing
            },
            Key::Kill => if self.has_marked_processes() {
                KeyAction::KillMarked
            } else {
                KeyAction::KillSelected
            },
            Key::Enter => if self.selected_section == Section::Scripts {
                KeyAction::RunSelected
            } else {
                self.open_detail();
                KeyAction::Nothing
            },
            Key::Mark => {
                self.toggle_mark();
                KeyAction::Nothing
            },
            Key::MarkAll => {
                self.toggle_all_marks();
                KeyAction::Nothing
            },
            Key::Detail => {
                self.open_detail();
                KeyAction::Nothing
            },
            Key::Escape => {
                self.escape();
                KeyAction::Nothing
            },
            Key::Other => KeyAction::Nothing,
        }
    }
}

} // verus!

//! The command history, newest first and bounded in length.

use vstd::prelude::*;
use crate::models::history::HistoryEntry;

verus! {

/// The entries kept after `entry` is recorded in front of `entries` with the
/// bound `max`: the new entry first, cut to `max` entries when longer.
pub open spec fn recorded(entries: Seq<HistoryEntry>, entry: HistoryEntry, max: nat) -> Seq<HistoryEntry> {
    let all = seq![entry] + entries;
    if all.len() > max {
        all.take(max as int)
    } else {
        all
    }
}

/// The command history, newest entry first, holding at most `max_entries`
/// entries after each recording.
pub struct HistoryManager {
    entries: Vec<HistoryEntry>,
    max_entries: usize,
}

impl HistoryManager {
    /// The entries, newest first.
    pub closed spec fn entries_spec(&self) -> Seq<HistoryEntry> {
        self.entries@
    }

    /// The bound on the number of entries.
    pub closed spec fn max_spec(&self) -> nat {
        self.max_entries as nat
    }

    /// An empty history keeping at most `max_entries` entries.
    pub fn new(max_entries: usize) -> (r: Self)
        ensures
            r.entries_spec() == Seq::<HistoryEntry>::empty(),
            r.max_spec() == max_entries,
    {
        HistoryManager { entries: Vec::new(), max_entries }
    }

    /// Records `entry` as the newest, dropping the oldest entries beyond the bound.
    pub fn add_entry(&mut self, entry: HistoryEntry)
        ensures
            final(self).entries_spec() == recorded(old(self).entries_spec(), entry, old(self).max_spec()),
            final(self).max_spec() == old(self).max_spec(),
    {
        let ghost before = self.entries@;
        self.entries.insert(0, entry);
        proof {
            assert(self.entries@ =~= seq![entry] + before);
        }
        if self.entries.len() > self.max_entries {
            self.entries.truncate(self.max_entries);
        }
    }

    /// The entries, newest first.
    pub fn list_entries(&self) -> (r: &[HistoryEntry])
        ensures
            r@ == self.entries_spec(),
    {
        self.entries.as_slice()
    }

    /// Forgets every entry.
    pub fn clear(&mut self)
        ensures
            final(self).entries_spec() == Seq::<HistoryEntry>::empty(),
            final(self).max_spec() == old(self).max_spec(),
    {
        self.entries.clear();
    }

    /// Replaces the entries by those of a saved history, when there is one.
    /// The saved entries are taken as they are, however many there are.
    pub fn load(&mut self, saved: Option<Vec<HistoryEntry>>)
        ensures
            saved is None ==> final(self).entries_spec() == old(self).entries_spec(),
            saved is Some ==> final(self).entries_spec() == saved->0@,
            final(self).max_spec() == old(self).max_spec(),
    {
        match saved {
            Some(entries) => {
                self.entries = entries;
            },
            None => {},
        }
    }
}

impl Default for HistoryManager {
    /// A history keeping at most 100 entries.
    fn default() -> (r: Self)
        ensures
            r.entries_spec() == Seq::<HistoryEntry>::empty(),
            r.max_spec() == 100,
    {
        Self::new(100)
    }
}

} // verus!

//! Variable refresh rate, per output: what the backend has said of each, by the output's name.
use vstd::prelude::*;

use crate::table::Table;

verus! {

/// What a table of flags holds for a name; an output that nothing is held for has not.
pub open spec fn flag(table: Map<Seq<char>, bool>, name: Seq<char>) -> bool {
    table.dom().contains(name) && table[name]
}

/// What is known about each output's adaptive sync.
pub struct VrrState {
    supported: Table<String, bool>,
    enabled: Table<String, bool>,
}

impl VrrState {
    pub closed spec fn support(&self) -> Map<Seq<char>, bool> {
        self.supported@
    }

    pub closed spec fn enablement(&self) -> Map<Seq<char>, bool> {
        self.enabled@
    }

    /// Nothing is known of any output.
    pub fn new() -> (state: Self)
        ensures
            state.support() == Map::<Seq<char>, bool>::empty(),
            state.enablement() == Map::<Seq<char>, bool>::empty(),
    {
        VrrState { supported: Table::new(), enabled: Table::new() }
    }

    /// Whether adaptive sync can be turned on for this output at all: not until the backend
    /// says so.
    pub fn supported(&self, output: &String) -> (r: bool)
        ensures
            r == flag(self.support(), output@),
    {
        match self.supported.get(output) {
            Some(held) => *held,
            None => false,
        }
    }

    /// Whether adaptive sync is currently on.
    pub fn enabled(&self, output: &String) -> (r: bool)
        ensures
            r == flag(self.enablement(), output@),
    {
        match self.enabled.get(output) {
            Some(held) => *held,
            None => false,
        }
    }

    pub fn set_supported(&mut self, output: String, supported: bool)
        ensures
            final(self).support() == old(self).support().insert(output@, supported),
            final(self).enablement() == old(self).enablement(),
    {
        self.supported.insert(output, supported);
    }

    pub fn set_enabled(&mut self, output: String, enabled: bool)
        ensures
            final(self).enablement() == old(self).enablement().insert(output@, enabled),
            final(self).support() == old(self).support(),
    {
        self.enabled.insert(output, enabled);
    }

    /// Drops an output that has gone away, so that a reconnected one is not believed to support
    /// VRR on the strength of a stale entry.
    pub fn forget(&mut self, output: &String)
        ensures
            final(self).support() == old(self).support().remove(output@),
            final(self).enablement() == old(self).enablement().remove(output@),
    {
        self.supported.remove(output);
        self.enabled.remove(output);
    }
}

} // verus!

//! The identifiers of the child processes that are running, so that all of
//! them can be sent a signal at once.
use std::collections::HashSet;
use vstd::prelude::*;

verus! {

broadcast use vstd::std_specs::hash::group_hash_axioms;

/// The process identifiers of running children; each run adds its own after
/// spawning and removes it once the process has been waited for.
pub struct PidRegistry {
    pids: HashSet<u32>,
}

impl View for PidRegistry {
    type V = Set<u32>;

    closed spec fn view(&self) -> Set<u32> {
        self.pids@
    }
}

impl PidRegistry {
    /// A registry that tracks no process.
    pub fn new() -> (r: PidRegistry)
        ensures
            r@ == Set::<u32>::empty(),
    {
        PidRegistry { pids: HashSet::new() }
    }

    /// Tracks `pid`; false when it was tracked already.
    pub fn register(&mut self, pid: u32) -> (r: bool)
        ensures
            final(self)@ == old(self)@.insert(pid),
            r == !old(self)@.contains(pid),
    {
        self.pids.insert(pid)
    }

    /// Stops tracking `pid`; false when it was not tracked.
    pub fn release(&mut self, pid: u32) -> (r: bool)
        ensures
            final(self)@ == old(self)@.remove(pid),
            r == old(self)@.contains(pid),
    {
        self.pids.remove(&pid)
    }

    /// Whether `pid` is tracked.
    pub fn contains(&self, pid: u32) -> (r: bool)
        ensures
            r == self@.contains(pid),
    {
        self.pids.contains(&pid)
    }

    /// The number of tracked processes.
    pub fn len(&self) -> (r: usize)
        ensures
            r == self@.len(),
    {
        self.pids.len()
    }

    /// The tracked identifiers, in no particular order.
    pub fn pids(&self) -> (r: &HashSet<u32>)
        ensures
            r@ == self@,
    {
        &self.pids
    }
}

/// A run that registers a fresh identifier and releases it after the wait
/// leaves the registry as it found it: no process of that run stays tracked.
pub proof fn lemma_register_release_restores(before: Set<u32>, pid: u32)
    requires
        !before.contains(pid),
    ensures
        before.insert(pid).remove(pid) == before,
        !before.insert(pid).remove(pid).contains(pid),
{
    assert(before.insert(pid).remove(pid) =~= before);
}

/// Releasing one identifier leaves the identifiers of other runs tracked.
pub proof fn lemma_release_keeps_others(before: Set<u32>, pid: u32, other: u32)
    requires
        before.contains(other),
        other != pid,
    ensures
        before.remove(pid).contains(other),
{
}

} // verus!

//! Regions: one growable memory divided into independent parts, each of which
//! holds one structure at a time.

use crate::stable::{manager_get, manager_init, region_tag, ManagedMemory, Region, REGION_LIMIT};
use vstd::prelude::*;

verus! {

impl Region {
    /// The tag that names the region within its memory.
    pub open spec fn tag(self) -> u8 {
        region_tag(self)
    }
}

/// One memory divided into regions, and the record of which regions have been
/// handed out. A region is handed out once: whoever holds it may attach one
/// structure to it, and gets it back by detaching that structure.
pub struct RegionManager {
    memory: ManagedMemory,
    taken: Vec<u8>,
}

impl RegionManager {
    /// The tags of the regions that have been handed out.
    pub closed spec fn claimed(&self) -> Set<u8> {
        self.taken@.to_set()
    }

    /// Attaches to the regions of the default memory, none of them handed out
    /// yet. What the memory already holds stays; a memory that holds nothing
    /// yet is laid out anew.
    ///
    /// In a test each manager has a memory of its own. In a canister every
    /// manager is over the canister's one stable memory, so a canister makes
    /// one manager and keeps it.
    pub fn init() -> (manager: RegionManager)
        ensures
            manager.claimed() == Set::<u8>::empty(),
    {
        let manager = RegionManager { memory: manager_init(), taken: Vec::new() };
        assert(manager.taken@.to_set() =~= Set::<u8>::empty());
        manager
    }

    /// Whether the region with this tag has been handed out.
    pub fn is_claimed(&self, tag: u8) -> (claimed: bool)
        ensures
            claimed == self.claimed().contains(tag),
    {
        let mut i: usize = 0;
        while i < self.taken.len()
            invariant
                0 <= i <= self.taken@.len(),
                forall|j: int| 0 <= j < i ==> self.taken@[j] != tag,
            decreases self.taken@.len() - i,
        {
            if self.taken[i] == tag {
                return true;
            }
            i = i + 1;
        }
        false
    }

    /// Hands out the region with the given tag, unless it has been handed out
    /// before. There is no region for the tag `REGION_LIMIT` or above. The tag
    /// always names the same region of the memory, also after a restart.
    pub fn claim(&mut self, tag: u8) -> (region: Option<Region>)
        ensures
            region is Some <==> tag < REGION_LIMIT && !old(self).claimed().contains(tag),
            region matches Some(r) ==> r.tag() == tag && final(self).claimed() == old(
                self,
            ).claimed().insert(tag),
            region is None ==> final(self).claimed() == old(self).claimed(),
    {
        if tag >= REGION_LIMIT || self.is_claimed(tag) {
            return None;
        }
        self.taken.push(tag);
        assert(self.taken@.to_set() =~= old(self).taken@.to_set().insert(tag)) by {
            assert forall|t: u8| self.taken@.to_set().contains(t) implies old(
                self,
            ).taken@.to_set().insert(tag).contains(t) by {
                let j = choose|j: int| 0 <= j < self.taken@.len() && self.taken@[j] == t;
                if j < old(self).taken@.len() {
                    assert(old(self).taken@[j] == t);
                }
            }
            assert forall|t: u8| old(self).taken@.to_set().insert(tag).contains(
                t,
            ) implies self.taken@.to_set().contains(t) by {
                if t == tag {
                    assert(self.taken@[self.taken@.len() - 1] == tag);
                } else {
                    let j = choose|j: int|
                        0 <= j < old(self).taken@.len() && old(self).taken@[j] == t;
                    assert(self.taken@[j] == t);
                }
            }
        }
        Some(manager_get(&self.memory, tag))
    }
}

} // verus!

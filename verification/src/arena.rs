//! The heap arena: a statically sized backing store handed out as a bump
//! allocator. The arena exists only after `init`, so no allocation can
//! precede initialization, and exhaustion is reported without touching the
//! bookkeeping, leaving the fatal-abort decision to the process around the
//! library.

use vstd::prelude::*;

verus! {

/// Bookkeeping for the fixed-size allocation region. `used` counts the bytes
/// already handed out from the front of the region.
pub struct HeapArena {
    capacity: usize,
    used: usize,
}

impl HeapArena {
    /// Size of the whole region, fixed at `init`.
    pub closed spec fn spec_capacity(self) -> int {
        self.capacity as int
    }

    /// Bytes already allocated.
    pub closed spec fn spec_used(self) -> int {
        self.used as int
    }

    /// The arena never hands out more than it holds.
    pub open spec fn wf(self) -> bool {
        0 <= self.spec_used() <= self.spec_capacity()
    }

    /// Reserve a region of `capacity` bytes as the allocator's backing
    /// store. The value returned is the only handle to the region, so
    /// allocation cannot happen before this runs, and it runs once per
    /// arena by construction.
    pub fn init(capacity: usize) -> (arena: Self)
        ensures
            arena.wf(),
            arena.spec_capacity() == capacity,
            arena.spec_used() == 0,
    {
        HeapArena { capacity, used: 0 }
    }

    /// Bytes still available.
    pub fn remaining(&self) -> (r: usize)
        requires
            self.wf(),
        ensures
            r == self.spec_capacity() - self.spec_used(),
    {
        self.capacity - self.used
    }

    /// Take `size` bytes from the front of the free space. Returns the
    /// offset of the new block, or `None` exactly when the request exceeds
    /// the remaining capacity - and then the bookkeeping is left untouched,
    /// so the failure is observable but mutates nothing.
    pub fn allocate(&mut self, size: usize) -> (r: Option<usize>)
        requires
            old(self).wf(),
        ensures
            final(self).wf(),
            final(self).spec_capacity() == old(self).spec_capacity(),
            r is Some <==> size <= old(self).spec_capacity() - old(self).spec_used(),
            r matches Some(offset) ==> offset == old(self).spec_used() && final(self).spec_used()
                == old(self).spec_used() + size,
            r is None ==> final(self).spec_used() == old(self).spec_used(),
    {
        if size <= self.capacity - self.used {
            let offset = self.used;
            self.used = self.used + size;
            Some(offset)
        } else {
            None
        }
    }
}

} // verus!

//! Issuing task identifiers: each one greater than all before it.

use vstd::prelude::*;

verus! {

/// Hands out identifiers 1, 2, 3, ... in turn.
#[derive(Debug)]
pub struct IdAllocator {
    next: u64,
}

impl IdAllocator {
    /// The identifier that the next call of `next_id` returns.
    pub closed spec fn upcoming(&self) -> u64 {
        self.next
    }

    /// An allocator whose first identifier is 1.
    pub fn new() -> (r: IdAllocator)
        ensures
            r.upcoming() == 1,
    {
        IdAllocator { next: 1 }
    }

    /// The identifier that the next call of `next_id` returns.
    pub fn peek(&self) -> (r: u64)
        ensures
            r == self.upcoming(),
    {
        self.next
    }

    /// Moves the allocator forward so that it next issues `next`.
    pub fn resume_from(&mut self, next: u64)
        requires
            next >= old(self).upcoming(),
        ensures
            final(self).upcoming() == next,
    {
        self.next = next;
    }

    /// Whether `next_id` can still be called: identifiers run out at `u64::MAX`.
    pub fn has_next(&self) -> (r: bool)
        ensures
            r == (self.upcoming() < u64::MAX),
    {
        self.next < u64::MAX
    }

    /// Issues a fresh identifier, greater than every one issued before.
    pub fn next_id(&mut self) -> (r: u64)
        requires
            old(self).upcoming() < u64::MAX,
        ensures
            r == old(self).upcoming(),
            final(self).upcoming() == r + 1,
    {
        let r = self.next;
        self.next = self.next + 1;
        r
    }
}

} // verus!

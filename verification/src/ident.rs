//! Allocation of process-unique numeric task identifiers.

use vstd::prelude::*;

verus! {

/// A monotonic counter handing out numeric task identifiers.
///
/// Every identifier returned by [`IdAllocator::alloc_id`] is strictly
/// greater than every identifier returned before it by the same allocator,
/// so no identifier is ever issued twice.  The allocator is passed
/// explicitly to every construction site instead of living in a global, so
/// an embedding application owns exactly one per process (and tests can
/// start a fresh one per case).
pub struct IdAllocator {
    next: usize,
    issued: Ghost<Seq<usize>>,
}

impl IdAllocator {
    /// The identifier the next call of `alloc_id` will return.
    pub closed spec fn next_id(&self) -> usize {
        self.next
    }

    /// Every identifier issued so far, oldest first.
    pub closed spec fn issued(&self) -> Seq<usize> {
        self.issued@
    }

    /// The identifiers issued so far are strictly increasing and all lie
    /// below `next_id`, so the next allocation is fresh.
    pub open spec fn wf(&self) -> bool {
        &&& forall|i: int, j: int|
            0 <= i < j < self.issued().len() ==> self.issued()[i] < self.issued()[j]
        &&& forall|i: int| 0 <= i < self.issued().len() ==> self.issued()[i] < self.next_id()
    }

    /// A fresh allocator; the first identifier it hands out is 1.
    pub fn new() -> (a: Self)
        ensures
            a.wf(),
            a.issued() == Seq::<usize>::empty(),
            a.next_id() == 1usize,
    {
        IdAllocator { next: 1, issued: Ghost(Seq::empty()) }
    }

    /// The identifier the next call of `alloc_id` will return, without
    /// drawing it.
    pub fn peek(&self) -> (id: usize)
        ensures
            id == self.next_id(),
    {
        self.next
    }

    /// Hand out the next identifier.
    pub fn alloc_id(&mut self) -> (id: usize)
        requires
            old(self).wf(),
            old(self).next_id() < usize::MAX,
        ensures
            final(self).wf(),
            id == old(self).next_id(),
            final(self).next_id() == old(self).next_id() + 1,
            final(self).issued() == old(self).issued().push(id),
    {
        let id = self.next;
        self.next = self.next + 1;
        proof {
            self.issued@ = self.issued@.push(id);
            assert forall|i: int, j: int|
                0 <= i < j < self.issued().len() implies self.issued()[i] < self.issued()[j] by {
                if j < self.issued().len() - 1 {
                    assert(old(self).issued()[i] < old(self).issued()[j]);
                } else {
                    assert(old(self).issued()[i] < id);
                }
            }
        }
        id
    }

    /// No identifier is issued twice: however many tasks are built from
    /// one allocator, over however many builds, all their numeric
    /// identifiers are pairwise distinct.  Uniqueness spans the whole
    /// process exactly when, as intended, a single allocator serves it;
    /// two separate allocators issue from separate counts.
    pub proof fn lemma_ids_unique(&self)
        requires
            self.wf(),
        ensures
            forall|i: int, j: int|
                0 <= i < self.issued().len() && 0 <= j < self.issued().len() && i != j
                    ==> self.issued()[i] != self.issued()[j],
    {
    }
}

} // verus!

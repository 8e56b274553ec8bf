//! The bump strategy: a monotonic cursor over the heap, with whole-heap
//! reclamation once every outstanding allocation has been handed back.

use vstd::prelude::*;
use crate::allocator::{
    align_up, align_up_spec, lemma_align_up_exceeds, lemma_align_up_spec_properties, Layout,
};

verus! {

/// Monotonic-cursor allocator state.
///
/// `next` is the cursor: everything in `[heap_start, next)` has been handed
/// out, everything in `[next, heap_end)` is still free. `allocations` counts
/// the allocations not yet deallocated.
pub struct BumpAllocator {
    pub heap_start: usize,
    pub heap_end: usize,
    pub next: usize,
    pub allocations: usize,
}

impl BumpAllocator {
    /// The state invariant: the cursor stays inside the heap bounds.
    pub open spec fn wf(self) -> bool {
        self.heap_start <= self.next <= self.heap_end
    }

    /// A fresh allocator, not yet backed by any memory region.
    pub fn new() -> (r: BumpAllocator)
        ensures
            r.heap_start == 0,
            r.heap_end == 0,
            r.next == 0,
            r.allocations == 0,
            r.wf(),
    {
        BumpAllocator { heap_start: 0, heap_end: 0, next: 0, allocations: 0 }
    }

    /// One-time initialisation with the mapped heap region.
    ///
    /// The caller guarantees the bounds describe a writable, unused region;
    /// this method is called exactly once.
    pub fn init(&mut self, heap_start: usize, heap_size: usize)
        requires
            heap_start + heap_size <= usize::MAX,
        ensures
            final(self).heap_start == heap_start,
            final(self).heap_end == heap_start + heap_size,
            final(self).next == heap_start,
            final(self).allocations == old(self).allocations,
            final(self).wf(),
    {
        self.heap_start = heap_start;
        self.heap_end = heap_start + heap_size;
        self.next = heap_start;
    }

    /// The address the next allocation with this layout would get: the
    /// cursor rounded up to the requested alignment.
    pub open spec fn candidate(self, layout: Layout) -> int {
        align_up_spec(self.next as int, layout.align as int)
    }

    /// Whether an allocation with this layout succeeds from this state: the
    /// aligned candidate plus the requested size must stay inside the heap
    /// (address arithmetic that would wrap counts as exceeding it).
    pub open spec fn alloc_ok(self, layout: Layout) -> bool {
        self.candidate(layout) + layout.size <= self.heap_end
    }

    /// The state after an `allocate` call.
    pub open spec fn alloc_state(self, layout: Layout) -> BumpAllocator {
        if self.alloc_ok(layout) {
            BumpAllocator {
                next: (self.candidate(layout) + layout.size) as usize,
                allocations: (self.allocations + 1) as usize,
                ..self
            }
        } else {
            self
        }
    }

    /// Allocate `layout` by bumping the cursor.
    ///
    /// Returns the aligned candidate address and advances the cursor past
    /// it; returns `None`, leaving the state untouched, when the candidate
    /// region would overflow the address space or run past `heap_end`.
    pub fn allocate(&mut self, layout: Layout) -> (r: Option<usize>)
        requires
            old(self).wf(),
            layout.valid(),
            old(self).allocations < usize::MAX,
        ensures
            *final(self) == old(self).alloc_state(layout),
            r is Some <==> old(self).alloc_ok(layout),
            r is Some ==> r->Some_0 == old(self).candidate(layout)
                && r->Some_0 % layout.align == 0
                && old(self).next <= r->Some_0,
            final(self).wf(),
    {
        proof {
            lemma_align_up_spec_properties(self.next as int, layout.align as int);
        }
        let ones_below = layout.align - 1;
        if ones_below > usize::MAX - self.next {
            // Rounding the cursor up would already wrap the address space.
            proof {
                lemma_align_up_exceeds(self.next as int, layout.align as int);
            }
            return None;
        }
        let alloc_start = align_up(self.next, layout.align);

        // Guard against overflow of the candidate region's end.
        if layout.size > usize::MAX - alloc_start {
            return None;
        }
        let alloc_end = alloc_start + layout.size;

        if alloc_end > self.heap_end {
            None
        } else {
            self.allocations = self.allocations + 1;
            self.next = alloc_end;
            Some(alloc_start)
        }
    }

    /// The state after a `deallocate` call: one fewer outstanding allocation
    /// (saturating at zero), and the whole heap reclaimed at once as soon as
    /// none are outstanding.
    pub open spec fn dealloc_state(self) -> BumpAllocator {
        let remaining = if self.allocations > 0 {
            (self.allocations - 1) as usize
        } else {
            0usize
        };
        BumpAllocator {
            allocations: remaining,
            next: if remaining == 0 { self.heap_start } else { self.next },
            ..self
        }
    }

    /// Give one allocation back.
    ///
    /// The bump strategy never reclaims partial space: it only decrements
    /// the outstanding count, and resets the cursor to `heap_start` once the
    /// count reaches zero. Decrementing an already-zero count is a caller
    /// contract violation and saturates rather than underflows.
    pub fn deallocate(&mut self, _ptr: usize, _layout: Layout)
        requires
            old(self).wf(),
        ensures
            *final(self) == old(self).dealloc_state(),
            final(self).wf(),
    {
        if self.allocations > 0 {
            self.allocations = self.allocations - 1;
        }
        if self.allocations == 0 {
            self.next = self.heap_start;
        }
    }
}

/// Bump monotonicity: from any state, two successive successful
/// allocations return non-decreasing addresses — the cursor only moves
/// forward while allocations are outstanding.
pub proof fn lemma_bump_monotonic(b: BumpAllocator, l1: Layout, l2: Layout)
    requires
        b.wf(),
        l1.valid(),
        l2.valid(),
        b.alloc_ok(l1),
    ensures
        b.alloc_state(l1).candidate(l2) >= b.candidate(l1),
{
    lemma_align_up_spec_properties(b.next as int, l1.align as int);
    let b1 = b.alloc_state(l1);
    lemma_align_up_spec_properties(b1.next as int, l2.align as int);
}

/// Whole-heap reclamation: once the outstanding count returns to zero,
/// the cursor is back at `heap_start`, and the next allocation whose
/// layout fits the heap start is served exactly there.
pub proof fn lemma_bump_reset_reuse(b: BumpAllocator, l: Layout)
    requires
        b.wf(),
        l.valid(),
        b.allocations == 1,
        b.heap_start % l.align == 0,
        b.heap_start + l.size <= b.heap_end,
    ensures
        b.dealloc_state().next == b.heap_start,
        b.dealloc_state().alloc_ok(l),
        b.dealloc_state().candidate(l) == b.heap_start,
{
    let d = b.dealloc_state();
    crate::allocator::lemma_align_up_unique(
        d.next as int,
        l.align as int,
        b.heap_start as int,
    );
}

} // verus!

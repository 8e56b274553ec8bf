//! The fixed-size-block strategy: segregated free lists per power-of-two
//! size class, backed by a general-purpose fallback allocator for large
//! requests and for replenishing empty classes.
//!
//! Each class list holds the start addresses of free blocks of exactly
//! that class's size, naturally aligned to the size. Blocks are pushed
//! and popped at the head in O(1) and are never returned to the fallback
//! pool — a deliberate fast-path/fragmentation trade-off.

use vstd::prelude::*;
use crate::allocator::{
    is_power_of_two, lemma_divides_trans, lemma_pow2_divides, lemma_small_powers_of_two, Layout,
};
use crate::allocator::linked_list::{
    alloc_excess_aligned, alloc_nodes, alloc_result, dealloc_nodes,
    lemma_aligned_size_excess_aligned, LinkedListAllocator, ListNode, LIST_NODE_ALIGN,
};

verus! {

/// Number of size classes.
pub const BLOCK_CLASS_COUNT: usize = 9;

/// The block size of class `i`: powers of two from 8 bytes (one next
/// pointer must fit in a free block) up to 2048 bytes. Larger requests go
/// to the fallback allocator.
pub open spec fn block_size_spec(i: int) -> usize {
    if i == 0 {
        8
    } else if i == 1 {
        16
    } else if i == 2 {
        32
    } else if i == 3 {
        64
    } else if i == 4 {
        128
    } else if i == 5 {
        256
    } else if i == 6 {
        512
    } else if i == 7 {
        1024
    } else {
        2048
    }
}

/// The block size of class `i`.
pub fn block_size(i: usize) -> (r: usize)
    requires
        i < BLOCK_CLASS_COUNT,
    ensures
        r == block_size_spec(i as int),
{
    if i == 0 {
        8
    } else if i == 1 {
        16
    } else if i == 2 {
        32
    } else if i == 3 {
        64
    } else if i == 4 {
        128
    } else if i == 5 {
        256
    } else if i == 6 {
        512
    } else if i == 7 {
        1024
    } else {
        2048
    }
}

/// Every class size is a power of two, at least 8, and a multiple of 8.
pub proof fn lemma_block_size_facts(i: int)
    requires
        0 <= i < BLOCK_CLASS_COUNT,
    ensures
        is_power_of_two(block_size_spec(i) as nat),
        block_size_spec(i) >= 8,
        block_size_spec(i) % 8 == 0,
{
    lemma_small_powers_of_two();
}

/// The block size a request needs: enough for the size, and — because a
/// block of class `S` is always `S`-aligned — enough for the alignment.
pub open spec fn required_block_size(layout: Layout) -> usize {
    if layout.size >= layout.align {
        layout.size
    } else {
        layout.align
    }
}

/// The class a request falls in: the smallest class size at least
/// `required_block_size(layout)`, or `None` when even the largest class
/// is too small and the request must go to the fallback allocator.
pub open spec fn list_index_spec(layout: Layout) -> Option<usize> {
    let r = required_block_size(layout);
    if r <= 8 {
        Some(0usize)
    } else if r <= 16 {
        Some(1usize)
    } else if r <= 32 {
        Some(2usize)
    } else if r <= 64 {
        Some(3usize)
    } else if r <= 128 {
        Some(4usize)
    } else if r <= 256 {
        Some(5usize)
    } else if r <= 512 {
        Some(6usize)
    } else if r <= 1024 {
        Some(7usize)
    } else if r <= 2048 {
        Some(8usize)
    } else {
        None
    }
}

/// Choose an appropriate block size class for the given layout.
pub fn list_index(layout: &Layout) -> (r: Option<usize>)
    ensures
        r == list_index_spec(*layout),
{
    let required = if layout.size >= layout.align {
        layout.size
    } else {
        layout.align
    };
    if required <= 8 {
        Some(0)
    } else if required <= 16 {
        Some(1)
    } else if required <= 32 {
        Some(2)
    } else if required <= 64 {
        Some(3)
    } else if required <= 128 {
        Some(4)
    } else if required <= 256 {
        Some(5)
    } else if required <= 512 {
        Some(6)
    } else if required <= 1024 {
        Some(7)
    } else if required <= 2048 {
        Some(8)
    } else {
        None
    }
}

/// The class chosen for a request is large enough for both its size and
/// its alignment.
pub proof fn lemma_list_index_fits(layout: Layout)
    requires
        list_index_spec(layout) is Some,
    ensures
        0 <= list_index_spec(layout)->Some_0 < BLOCK_CLASS_COUNT,
        block_size_spec(list_index_spec(layout)->Some_0 as int) >= layout.size,
        block_size_spec(list_index_spec(layout)->Some_0 as int) >= layout.align,
{
}

/// The layout used to replenish class `i` from the fallback allocator:
/// exactly one block, aligned to its own size.
pub open spec fn block_layout_spec(i: int) -> Layout {
    Layout { size: block_size_spec(i), align: block_size_spec(i) }
}

/// The address a request of `layout` is served at, over the allocator's
/// views: the head of the matching class list when that list is
/// non-empty, otherwise whatever the fallback allocator yields — for one
/// fresh block of the class size, or for the whole oversized request.
pub open spec fn fsb_alloc_result(
    classes: Seq<Seq<usize>>,
    fallback: Seq<ListNode>,
    layout: Layout,
) -> Option<usize> {
    match list_index_spec(layout) {
        Some(idx) => {
            let cl = classes[idx as int];
            if cl.len() > 0 {
                Some(cl.last())
            } else {
                alloc_result(fallback, block_layout_spec(idx as int))
            }
        },
        None => alloc_result(fallback, layout),
    }
}

/// The per-class lists after a request of `layout` is served: only a hit
/// in a non-empty class list changes them, by popping that list's head.
pub open spec fn fsb_alloc_classes(
    classes: Seq<Seq<usize>>,
    fallback: Seq<ListNode>,
    layout: Layout,
) -> Seq<Seq<usize>> {
    match list_index_spec(layout) {
        Some(idx) => {
            let cl = classes[idx as int];
            if cl.len() > 0 {
                classes.update(idx as int, cl.drop_last())
            } else {
                classes
            }
        },
        None => classes,
    }
}

/// The fallback free list after a request of `layout` is served: touched
/// only when the class list was empty or no class applied.
pub open spec fn fsb_alloc_fallback(
    classes: Seq<Seq<usize>>,
    fallback: Seq<ListNode>,
    layout: Layout,
) -> Seq<ListNode> {
    match list_index_spec(layout) {
        Some(idx) => {
            let cl = classes[idx as int];
            if cl.len() > 0 {
                fallback
            } else {
                alloc_nodes(fallback, block_layout_spec(idx as int))
            }
        },
        None => alloc_nodes(fallback, layout),
    }
}

/// The per-class lists after `(ptr, layout)` is handed back: a block of a
/// class is pushed onto that class's list and never returns to the
/// fallback pool.
pub open spec fn fsb_dealloc_classes(
    classes: Seq<Seq<usize>>,
    ptr: usize,
    layout: Layout,
) -> Seq<Seq<usize>> {
    match list_index_spec(layout) {
        Some(idx) => classes.update(idx as int, classes[idx as int].push(ptr)),
        None => classes,
    }
}

/// The fallback free list after `(ptr, layout)` is handed back: touched
/// only when no class applied to the layout.
pub open spec fn fsb_dealloc_fallback(
    fallback: Seq<ListNode>,
    ptr: usize,
    layout: Layout,
) -> Seq<ListNode> {
    match list_index_spec(layout) {
        Some(_) => fallback,
        None => dealloc_nodes(fallback, ptr, layout),
    }
}

/// A heap allocator with one free list per power-of-two size class and a
/// general-purpose free-list allocator behind them.
pub struct FixedSizeBlockAllocator {
    pub list_heads: Vec<Vec<usize>>,
    pub fallback_allocator: LinkedListAllocator,
}

impl FixedSizeBlockAllocator {
    /// The per-class free lists, by contents: `class_lists()[i]` holds the
    /// start addresses of the free blocks of class `i`, head last.
    pub open spec fn class_lists(self) -> Seq<Seq<usize>> {
        self.list_heads@.map_values(|v: Vec<usize>| v@)
    }

    /// The allocator invariant: one list per class, every block in class
    /// `i`'s list naturally aligned to the class size, and a valid
    /// fallback allocator.
    pub open spec fn wf(self) -> bool {
        &&& self.list_heads@.len() == BLOCK_CLASS_COUNT
        &&& forall|i: int, j: int|
            0 <= i < BLOCK_CLASS_COUNT && 0 <= j < self.class_lists()[i].len()
                ==> (#[trigger] self.class_lists()[i][j]) % block_size_spec(i) == 0
        &&& self.fallback_allocator.wf()
    }

    /// A fresh allocator: every class list empty, the fallback not yet
    /// backed by any memory region.
    pub fn new() -> (r: FixedSizeBlockAllocator)
        ensures
            r.wf(),
            forall|i: int| 0 <= i < BLOCK_CLASS_COUNT ==> r.class_lists()[i].len() == 0,
            r.fallback_allocator.free_list@.len() == 0,
    {
        let mut list_heads: Vec<Vec<usize>> = Vec::new();
        let mut k: usize = 0;
        while k < BLOCK_CLASS_COUNT
            invariant
                k <= BLOCK_CLASS_COUNT,
                list_heads@.len() == k,
                forall|i: int| 0 <= i < k ==> (#[trigger] list_heads@[i])@.len() == 0,
            decreases BLOCK_CLASS_COUNT - k,
        {
            list_heads.push(Vec::new());
            k = k + 1;
        }
        FixedSizeBlockAllocator { list_heads, fallback_allocator: LinkedListAllocator::new() }
    }

    /// Initialise the allocator with the given heap bounds, handing the
    /// whole region to the fallback allocator.
    ///
    /// The caller guarantees the bounds describe a writable, unused
    /// region; this method is called exactly once.
    pub fn init(&mut self, heap_start: usize, heap_size: usize)
        requires
            old(self).wf(),
            heap_start % LIST_NODE_ALIGN == 0,
            heap_size >= crate::allocator::linked_list::LIST_NODE_SIZE,
            heap_start + heap_size <= usize::MAX,
        ensures
            final(self).wf(),
            final(self).class_lists() == old(self).class_lists(),
            final(self).fallback_allocator.free_list@ == old(
                self,
            ).fallback_allocator.free_list@.insert(
                0,
                ListNode { size: heap_size, start: heap_start },
            ),
    {
        self.fallback_allocator.init(heap_start, heap_size);
        proof {
            self.lemma_classes_unchanged(*old(self));
        }
    }

    /// A state with the same class contents and a valid fallback keeps
    /// the whole invariant.
    proof fn lemma_classes_unchanged(self, prev: FixedSizeBlockAllocator)
        requires
            prev.wf(),
            self.class_lists() == prev.class_lists(),
            self.fallback_allocator.wf(),
        ensures
            self.wf(),
    {
        assert(self.list_heads@.len() == self.class_lists().len());
        assert forall|i: int, j: int|
            0 <= i < BLOCK_CLASS_COUNT && 0 <= j < self.class_lists()[i].len() implies (
        #[trigger] self.class_lists()[i][j]) % block_size_spec(i) == 0 by {
            assert(prev.class_lists()[i][j] % block_size_spec(i) == 0);
        }
    }

    /// Allocate from the fallback allocator, mapping its failure to the
    /// null-style `None`.
    pub fn fallback_alloc(&mut self, layout: Layout) -> (r: Option<usize>)
        requires
            old(self).wf(),
            layout.valid(),
            old(self).fallback_allocator.nodes_aligned(ListNode::alloc_align_spec(layout)),
            alloc_excess_aligned(old(self).fallback_allocator.free_list@, layout),
        ensures
            final(self).wf(),
            final(self).class_lists() == old(self).class_lists(),
            final(self).fallback_allocator.free_list@ == alloc_nodes(
                old(self).fallback_allocator.free_list@,
                layout,
            ),
            r == alloc_result(old(self).fallback_allocator.free_list@, layout),
            r is Some ==> r->Some_0 % layout.align == 0,
    {
        let r = self.fallback_allocator.allocate(layout);
        proof {
            self.lemma_classes_unchanged(*old(self));
        }
        r
    }

    /// What `allocate` demands of the fallback wherever it may have to
    /// call it: every fallback region aligned to the carve it would make,
    /// since a misaligned node during the scan is a fatal contract breach
    /// (see `LinkedListAllocator::allocate`).
    pub open spec fn fallback_ready(self, layout: Layout) -> bool {
        match list_index_spec(layout) {
            Some(idx) => self.class_lists()[idx as int].len() == 0
                ==> self.fallback_allocator.nodes_aligned(block_size_spec(idx as int)),
            None => self.fallback_allocator.nodes_aligned(ListNode::alloc_align_spec(layout))
                && alloc_excess_aligned(self.fallback_allocator.free_list@, layout),
        }
    }

    /// Allocate `layout`.
    ///
    /// When a size class applies, pop that class's free list in O(1), or —
    /// if the list is empty — carve one fresh block of exactly the class
    /// size, aligned to it, out of the fallback allocator. When no class
    /// applies the whole request is delegated to the fallback allocator.
    pub fn allocate(&mut self, layout: Layout) -> (r: Option<usize>)
        requires
            old(self).wf(),
            layout.valid(),
            old(self).fallback_ready(layout),
        ensures
            final(self).wf(),
            final(self).class_lists() == fsb_alloc_classes(
                old(self).class_lists(),
                old(self).fallback_allocator.free_list@,
                layout,
            ),
            final(self).fallback_allocator.free_list@ == fsb_alloc_fallback(
                old(self).class_lists(),
                old(self).fallback_allocator.free_list@,
                layout,
            ),
            r == fsb_alloc_result(
                old(self).class_lists(),
                old(self).fallback_allocator.free_list@,
                layout,
            ),
            r is Some ==> r->Some_0 % layout.align == 0,
    {
        let ghost prev = *old(self);
        match list_index(&layout) {
            Some(idx) => {
                proof {
                    lemma_list_index_fits(layout);
                }
                let mut class_list = self.list_heads.remove(idx);
                match class_list.pop() {
                    Some(block) => {
                        self.list_heads.insert(idx, class_list);
                        proof {
                            vstd::seq_lib::lemma_update_is_remove_insert(
                                prev.list_heads@,
                                idx as int,
                                self.list_heads@[idx as int],
                            );
                            assert(self.class_lists() =~~= prev.class_lists().update(
                                idx as int,
                                prev.class_lists()[idx as int].drop_last(),
                            ));
                            assert forall|i: int, j: int|
                                0 <= i < BLOCK_CLASS_COUNT && 0 <= j
                                    < self.class_lists()[i].len() implies (
                            #[trigger] self.class_lists()[i][j]) % block_size_spec(i) == 0 by {
                                assert(self.class_lists()[i][j] == prev.class_lists()[i][j]);
                            }
                            // The popped head kept the class invariant.
                            assert(block == prev.class_lists()[idx as int].last());
                            assert(block % block_size_spec(idx as int) == 0);
                            lemma_block_size_facts(idx as int);
                            lemma_pow2_divides(
                                layout.align as nat,
                                block_size_spec(idx as int) as nat,
                            );
                            lemma_divides_trans(
                                block as int,
                                block_size_spec(idx as int) as int,
                                layout.align as int,
                            );
                        }
                        Some(block)
                    },
                    None => {
                        self.list_heads.insert(idx, class_list);
                        proof {
                            vstd::seq_lib::lemma_update_is_remove_insert(
                                prev.list_heads@,
                                idx as int,
                                self.list_heads@[idx as int],
                            );
                            assert forall|i: int|
                                0 <= i < BLOCK_CLASS_COUNT implies self.class_lists()[i]
                                == prev.class_lists()[i] by {
                                if i != idx {
                                    assert(self.list_heads@[i] == prev.list_heads@[i]);
                                } else {
                                    assert(self.list_heads@[i]@ == prev.list_heads@[i]@);
                                }
                            }
                            assert(self.class_lists() =~~= prev.class_lists());
                            self.lemma_classes_unchanged(prev);
                        }
                        let size = block_size(idx);
                        proof {
                            lemma_block_size_facts(idx as int);
                        }
                        let new_layout = Layout::new(size, size);
                        proof {
                            // The carved size is a multiple of the node
                            // alignment, so no misaligned leftover can arise.
                            assert(ListNode::alloc_size_spec(new_layout) % LIST_NODE_ALIGN == 0);
                            lemma_aligned_size_excess_aligned(
                                self.fallback_allocator.free_list@,
                                new_layout,
                            );
                            assert(ListNode::alloc_align_spec(new_layout) == size);
                        }
                        let r = self.fallback_alloc(new_layout);
                        proof {
                            if r is Some {
                                lemma_pow2_divides(layout.align as nat, size as nat);
                                lemma_divides_trans(
                                    r->Some_0 as int,
                                    size as int,
                                    layout.align as int,
                                );
                            }
                        }
                        r
                    },
                }
            },
            None => {
                self.fallback_alloc(layout)
            },
        }
    }

    /// Hand the block `(ptr, layout)` back.
    ///
    /// When a size class applied at allocation time the block goes back
    /// onto that class's free list in O(1); otherwise it is returned to
    /// the fallback allocator. `(ptr, layout)` must match a prior
    /// successful `allocate`, which is what guarantees the alignment and
    /// bound preconditions.
    pub fn deallocate(&mut self, ptr: usize, layout: Layout)
        requires
            old(self).wf(),
            match list_index_spec(layout) {
                Some(idx) => ptr % block_size_spec(idx as int) == 0,
                None => ptr % LIST_NODE_ALIGN == 0 && ptr + ListNode::alloc_size_spec(layout)
                    <= usize::MAX,
            },
        ensures
            final(self).wf(),
            final(self).class_lists() == fsb_dealloc_classes(
                old(self).class_lists(),
                ptr,
                layout,
            ),
            final(self).fallback_allocator.free_list@ == fsb_dealloc_fallback(
                old(self).fallback_allocator.free_list@,
                ptr,
                layout,
            ),
    {
        let ghost prev = *old(self);
        match list_index(&layout) {
            Some(idx) => {
                proof {
                    lemma_list_index_fits(layout);
                }
                let mut class_list = self.list_heads.remove(idx);
                class_list.push(ptr);
                self.list_heads.insert(idx, class_list);
                proof {
                    vstd::seq_lib::lemma_update_is_remove_insert(
                        prev.list_heads@,
                        idx as int,
                        self.list_heads@[idx as int],
                    );
                    assert(self.class_lists() =~~= prev.class_lists().update(
                        idx as int,
                        prev.class_lists()[idx as int].push(ptr),
                    ));
                    assert forall|i: int, j: int|
                        0 <= i < BLOCK_CLASS_COUNT && 0 <= j
                            < self.class_lists()[i].len() implies (
                    #[trigger] self.class_lists()[i][j]) % block_size_spec(i) == 0 by {
                        if i != idx || j < prev.class_lists()[i].len() {
                            assert(self.class_lists()[i][j] == prev.class_lists()[i][j]);
                        } else {
                            assert(self.class_lists()[i][j] == ptr);
                        }
                    }
                }
            },
            None => {
                self.fallback_allocator.deallocate(ptr, layout);
                proof {
                    self.lemma_classes_unchanged(prev);
                }
            },
        }
    }

    /// Fixed-size-block reuse: a block freed into a class is returned
    /// verbatim by the very next same-class allocation, without the
    /// fallback allocator being consulted, and the allocator is back in
    /// the state it started from.
    pub proof fn lemma_fixed_size_block_reuse(
        classes: Seq<Seq<usize>>,
        fallback: Seq<ListNode>,
        ptr: usize,
        layout: Layout,
    )
        requires
            classes.len() == BLOCK_CLASS_COUNT,
            list_index_spec(layout) is Some,
        ensures
            ({
                let classes1 = fsb_dealloc_classes(classes, ptr, layout);
                let fallback1 = fsb_dealloc_fallback(fallback, ptr, layout);
                &&& fallback1 == fallback
                &&& fsb_alloc_result(classes1, fallback1, layout) == Some(ptr)
                &&& fsb_alloc_fallback(classes1, fallback1, layout) == fallback
                &&& fsb_alloc_classes(classes1, fallback1, layout) == classes
            }),
    {
        lemma_list_index_fits(layout);
        let idx = list_index_spec(layout)->Some_0 as int;
        let classes1 = fsb_dealloc_classes(classes, ptr, layout);
        assert(classes1[idx] == classes[idx].push(ptr));
        assert(classes1[idx].last() == ptr);
        assert(classes1[idx].drop_last() =~= classes[idx]);
        assert(fsb_alloc_classes(classes1, fallback, layout) =~~= classes);
    }

    /// Exhaustion: when the request's class list is empty (or no class
    /// applies) and the region the fallback would have to carve is larger
    /// than every fallback node, the allocation fails and neither the
    /// class lists nor the fallback free list change.
    pub proof fn lemma_fsb_exhaustion(
        classes: Seq<Seq<usize>>,
        fallback: Seq<ListNode>,
        layout: Layout,
    )
        requires
            match list_index_spec(layout) {
                Some(idx) => classes[idx as int].len() == 0 && forall|i: int|
                    0 <= i < fallback.len() ==> block_size_spec(idx as int) > (
                    #[trigger] fallback[i]).size,
                None => forall|i: int|
                    0 <= i < fallback.len() ==> layout.size > (#[trigger] fallback[i]).size,
            },
        ensures
            fsb_alloc_result(classes, fallback, layout) is None,
            fsb_alloc_classes(classes, fallback, layout) == classes,
            fsb_alloc_fallback(classes, fallback, layout) == fallback,
    {
        match list_index_spec(layout) {
            Some(idx) => {
                crate::allocator::linked_list::lemma_exhaustion(
                    fallback,
                    block_layout_spec(idx as int),
                );
            },
            None => {
                crate::allocator::linked_list::lemma_exhaustion(fallback, layout);
            },
        }
    }

    /// How many free blocks class `i`'s list currently holds.
    pub fn class_len(&self, i: usize) -> (r: usize)
        requires
            self.wf(),
            i < BLOCK_CLASS_COUNT,
        ensures
            r == self.class_lists()[i as int].len(),
    {
        self.list_heads[i].len()
    }
}

} // verus!

//! The free-list (linked-list) strategy: general-purpose first-fit
//! allocation with block splitting and head-insertion reuse.
//!
//! A kernel stores each free region's metadata intrusively, as a node
//! written into the region's own first bytes. Here the list is held
//! out-of-band: `free_list[0]` is the head of the chain, and each entry
//! records the `(start, size)` such an intrusive node would carry. Freed blocks
//! go to the front, so reuse is LIFO-by-free-time, and address-adjacent free
//! regions are deliberately never merged.

use vstd::prelude::*;
use crate::allocator::{
    is_power_of_two, lemma_divides_trans, lemma_pow2_divides, lemma_small_powers_of_two, Layout,
};

verus! {

/// Storage footprint, in bytes, of one intrusive free-list node (a size
/// word plus a next pointer on the 64-bit target).
pub const LIST_NODE_SIZE: usize = 16;

/// Alignment requirement of one intrusive free-list node.
pub const LIST_NODE_ALIGN: usize = 8;

/// One free region of the heap: the record an intrusive `ListNode` would
/// hold, with its own start address made explicit.
#[derive(Clone, Copy, PartialEq, Eq, Structural, Debug)]
pub struct ListNode {
    pub size: usize,
    pub start: usize,
}

impl ListNode {
    /// The node invariant: a node's address is aligned to the node's own
    /// alignment requirement, its size is at least the node's storage size,
    /// and the region stays inside the address space.
    pub open spec fn wf(self) -> bool {
        &&& self.start % LIST_NODE_ALIGN == 0
        &&& self.size >= LIST_NODE_SIZE
        &&& self.start + self.size <= usize::MAX
    }

    pub fn new(start: usize, size: usize) -> (r: ListNode)
        ensures
            r == (ListNode { size, start }),
    {
        ListNode { size, start }
    }

    pub fn start_addr(&self) -> (r: usize)
        ensures
            r == self.start,
    {
        self.start
    }

    pub fn end_addr(&self) -> (r: usize)
        requires
            self.start + self.size <= usize::MAX,
        ensures
            r == self.start + self.size,
    {
        self.start + self.size
    }

    /// The size actually carved for a request: large enough both for the
    /// request and for the region to hold a free-list node once it is
    /// handed back.
    pub open spec fn alloc_size_spec(layout: Layout) -> usize {
        if layout.size >= LIST_NODE_SIZE {
            layout.size
        } else {
            LIST_NODE_SIZE
        }
    }

    /// Given an allocation layout, determine the size to allocate such that
    /// the request is met and the region will fit a `ListNode` when it is
    /// eventually freed.
    pub fn alloc_size(layout: Layout) -> (r: usize)
        ensures
            r == Self::alloc_size_spec(layout),
            r >= layout.size,
            r >= LIST_NODE_SIZE,
    {
        if layout.size >= LIST_NODE_SIZE {
            layout.size
        } else {
            LIST_NODE_SIZE
        }
    }

    /// The alignment actually requested: large enough both for the request
    /// and for the region to be properly aligned for a `ListNode` once it
    /// is freed.
    pub open spec fn alloc_align_spec(layout: Layout) -> usize {
        if layout.align >= LIST_NODE_ALIGN {
            layout.align
        } else {
            LIST_NODE_ALIGN
        }
    }

    /// Given an allocation layout, determine the alignment such that the
    /// request is met and the region will be properly aligned for a
    /// `ListNode` after it is freed.
    pub fn alloc_align(layout: Layout) -> (r: usize)
        requires
            layout.valid(),
        ensures
            r == Self::alloc_align_spec(layout),
            is_power_of_two(r as nat),
            r % layout.align == 0,
    {
        proof {
            lemma_small_powers_of_two();
            if layout.align < LIST_NODE_ALIGN {
                lemma_pow2_divides(layout.align as nat, LIST_NODE_ALIGN as nat);
            }
        }
        if layout.align >= LIST_NODE_ALIGN {
            layout.align
        } else {
            LIST_NODE_ALIGN
        }
    }

    /// Whether this node can serve a carve of `size` bytes starting at its
    /// own start address: the carved end must not pass the node's end, and
    /// the leftover must be either nothing or at least one node's storage,
    /// so no unusable sliver is stranded.
    pub open spec fn carve_ok(self, size: usize) -> bool {
        size <= self.size && (self.size == size || self.size - size >= LIST_NODE_SIZE)
    }

    /// The regions a successful carve of `size` bytes yields: the
    /// allocation itself, and the leftover span (when there is one) as a
    /// separate region.
    pub open spec fn carve_spec(self, size: usize) -> UsableRegion {
        UsableRegion {
            alloc_region: MemRegion { start: self.start, size },
            excess_region: if self.size == size {
                None
            } else {
                Some(
                    MemRegion {
                        start: (self.start + size) as usize,
                        size: (self.size - size) as usize,
                    },
                )
            },
        }
    }

    /// Attempt to carve a `size`-byte allocation out of this node, starting
    /// at the node's own start address.
    ///
    /// Fails when the node is too small for the requested size, or when the
    /// leftover would be a sliver too small to fit a new `ListNode`. The
    /// node's start being aligned to the request is a caller-contract
    /// breach that must halt the kernel rather than corrupt it, so it is a
    /// precondition here; `add_free_region` establishes it for the node's
    /// own alignment.
    pub fn try_allocate(&self, size: usize, align: usize) -> (r: Result<UsableRegion, ()>)
        requires
            self.start + self.size <= usize::MAX,
            self.start % align == 0,
        ensures
            r is Ok <==> self.carve_ok(size),
            r is Ok ==> r->Ok_0 == self.carve_spec(size),
    {
        let alloc_start = self.start_addr();

        let alloc_end = match alloc_start.checked_add(size) {
            Some(e) => e,
            None => {
                return Err(());
            },
        };

        if alloc_end > self.end_addr() {
            return Err(());
        }

        let alloc_region = MemRegion { start: alloc_start, size };

        let remaining_size = self.end_addr() - alloc_end;
        if remaining_size > 0 {
            if remaining_size < LIST_NODE_SIZE {
                // A leftover too small for another ListNode would be lost:
                // reject the carve even though the raw bytes would suffice.
                return Err(());
            }
            let excess_region = MemRegion { start: alloc_end, size: remaining_size };
            return Ok(UsableRegion { alloc_region, excess_region: Some(excess_region) });
        }

        Ok(UsableRegion { alloc_region, excess_region: None })
    }
}

/// A contiguous span of addressable memory.
#[derive(Clone, Copy, PartialEq, Eq, Structural, Debug)]
pub struct MemRegion {
    pub start: usize,
    pub size: usize,
}

/// The outcome of carving an allocation out of a free node: the allocated
/// region, plus the leftover of the node when there is any.
#[derive(Clone, Copy, PartialEq, Eq, Debug)]
pub struct UsableRegion {
    pub alloc_region: MemRegion,
    pub excess_region: Option<MemRegion>,
}

/// The index of the first node in the list that can serve a carve of
/// `size` bytes, scanning from the head.
pub open spec fn first_fit(nodes: Seq<ListNode>, size: usize) -> Option<int>
    decreases nodes.len(),
{
    if nodes.len() == 0 {
        None
    } else if nodes[0].carve_ok(size) {
        Some(0)
    } else {
        match first_fit(nodes.skip(1), size) {
            None => None,
            Some(i) => Some(i + 1),
        }
    }
}

/// What `first_fit` finds: a usable node with no usable node before it, or
/// the guarantee that no node in the list is usable.
pub proof fn lemma_first_fit_characterization(nodes: Seq<ListNode>, size: usize)
    ensures
        match first_fit(nodes, size) {
            Some(i) => 0 <= i < nodes.len() && nodes[i].carve_ok(size) && forall|j: int|
                0 <= j < i ==> !(#[trigger] nodes[j]).carve_ok(size),
            None => forall|j: int| 0 <= j < nodes.len() ==> !(#[trigger] nodes[j]).carve_ok(size),
        },
    decreases nodes.len(),
{
    if nodes.len() > 0 && !nodes[0].carve_ok(size) {
        let rest = nodes.skip(1);
        lemma_first_fit_characterization(rest, size);
        match first_fit(rest, size) {
            Some(i) => {
                assert(first_fit(nodes, size) == Some(i + 1));
                assert(nodes[i + 1] == rest[i]);
                assert forall|j: int| 0 <= j < i + 1 implies !(#[trigger] nodes[j]).carve_ok(
                    size,
                ) by {
                    if j > 0 {
                        assert(nodes[j] == rest[j - 1]);
                    }
                }
            },
            None => {
                assert forall|j: int| 0 <= j < nodes.len() implies !(#[trigger] nodes[j]).carve_ok(
                    size,
                ) by {
                    if j > 0 {
                        assert(nodes[j] == rest[j - 1]);
                    }
                }
            },
        }
    }
}

/// `first_fit` is pinned down by any witness: a usable node all of whose
/// predecessors are unusable is the one `first_fit` finds.
pub proof fn lemma_first_fit_agrees(nodes: Seq<ListNode>, size: usize, i: int)
    requires
        0 <= i < nodes.len(),
        nodes[i].carve_ok(size),
        forall|j: int| 0 <= j < i ==> !(#[trigger] nodes[j]).carve_ok(size),
    ensures
        first_fit(nodes, size) == Some(i),
{
    lemma_first_fit_characterization(nodes, size);
    match first_fit(nodes, size) {
        Some(k) => {
            if k < i {
                assert(!nodes[k].carve_ok(size));
            } else if k > i {
                assert(!nodes[i].carve_ok(size));
            }
        },
        None => {
            assert(!nodes[i].carve_ok(size));
        },
    }
}

/// The free list after a request of `layout` is served: the first usable
/// node is unlinked, and its leftover (if any) is pushed back at the head.
/// When no node is usable the list is unchanged.
pub open spec fn alloc_nodes(nodes: Seq<ListNode>, layout: Layout) -> Seq<ListNode> {
    let size = ListNode::alloc_size_spec(layout);
    match first_fit(nodes, size) {
        None => nodes,
        Some(i) => {
            let node = nodes[i];
            let rest = nodes.remove(i);
            if node.size == size {
                rest
            } else {
                rest.insert(
                    0,
                    ListNode {
                        size: (node.size - size) as usize,
                        start: (node.start + size) as usize,
                    },
                )
            }
        },
    }
}

/// The address a request of `layout` is served at: the start of the first
/// usable node, or `None` when the list is exhausted for this request.
pub open spec fn alloc_result(nodes: Seq<ListNode>, layout: Layout) -> Option<usize> {
    match first_fit(nodes, ListNode::alloc_size_spec(layout)) {
        None => None,
        Some(i) => Some(nodes[i].start),
    }
}

/// The free list after `(ptr, layout)` is handed back: the freed region is
/// reinserted at the head, unconditionally and without merging.
pub open spec fn dealloc_nodes(nodes: Seq<ListNode>, ptr: usize, layout: Layout) -> Seq<
    ListNode,
> {
    nodes.insert(0, ListNode { size: ListNode::alloc_size_spec(layout), start: ptr })
}

/// Whether serving `layout` leaves either no leftover or a leftover whose
/// start keeps the node alignment. A misaligned re-insertion is a fatal
/// contract breach, so `allocate` demands this up front; any
/// request whose carved size is a multiple of the node alignment satisfies
/// it in every state (see `lemma_aligned_size_excess_aligned`).
pub open spec fn alloc_excess_aligned(nodes: Seq<ListNode>, layout: Layout) -> bool {
    let size = ListNode::alloc_size_spec(layout);
    match first_fit(nodes, size) {
        None => true,
        Some(i) => nodes[i].size == size || (nodes[i].start + size) % (
        LIST_NODE_ALIGN as int) == 0,
    }
}

/// A request whose carved size is a multiple of the node alignment can
/// never produce a misaligned leftover, whatever the list holds.
pub proof fn lemma_aligned_size_excess_aligned(nodes: Seq<ListNode>, layout: Layout)
    requires
        forall|i: int| 0 <= i < nodes.len() ==> (#[trigger] nodes[i]).wf(),
        ListNode::alloc_size_spec(layout) % LIST_NODE_ALIGN == 0,
    ensures
        alloc_excess_aligned(nodes, layout),
{
    let size = ListNode::alloc_size_spec(layout);
    lemma_first_fit_characterization(nodes, size);
}

/// A heap allocator that keeps a singly linked list of free regions,
/// rooted at the head `free_list[0]`.
///
/// Freed blocks are never merged with address-adjacent neighbours: that is
/// a deliberate baseline simplification of this strategy.
pub struct LinkedListAllocator {
    pub free_list: Vec<ListNode>,
}

impl LinkedListAllocator {
    /// The allocator invariant: every tracked free region is a valid node.
    pub open spec fn wf(self) -> bool {
        forall|i: int| 0 <= i < self.free_list@.len() ==> (#[trigger] self.free_list@[i]).wf()
    }

    /// Every tracked free region starts at a multiple of `align`.
    pub open spec fn nodes_aligned(self, align: usize) -> bool {
        forall|i: int|
            0 <= i < self.free_list@.len() ==> (#[trigger] self.free_list@[i]).start % align == 0
    }

    /// A fresh allocator with an empty free list.
    pub fn new() -> (r: LinkedListAllocator)
        ensures
            r.free_list@.len() == 0,
            r.wf(),
    {
        LinkedListAllocator { free_list: Vec::new() }
    }

    /// Initialise the allocator with the given heap bounds.
    ///
    /// The caller guarantees the bounds describe a writable, unused region;
    /// this method is called exactly once.
    pub fn init(&mut self, heap_start: usize, heap_size: usize)
        requires
            old(self).wf(),
            heap_start % LIST_NODE_ALIGN == 0,
            heap_size >= LIST_NODE_SIZE,
            heap_start + heap_size <= usize::MAX,
        ensures
            final(self).free_list@ == old(self).free_list@.insert(
                0,
                ListNode { size: heap_size, start: heap_start },
            ),
            final(self).wf(),
    {
        self.add_free_region(heap_start, heap_size);
    }

    /// Insert the region `(addr, size)` at the front of the list, making it
    /// the new head.
    ///
    /// A misaligned `addr`, or a `size` that cannot hold a node, is a
    /// fatal caller-contract breach, excluded here by precondition. The
    /// caller also guarantees the region lies within addressable memory.
    pub fn add_free_region(&mut self, addr: usize, size: usize)
        requires
            old(self).wf(),
            addr % LIST_NODE_ALIGN == 0,
            size >= LIST_NODE_SIZE,
            addr + size <= usize::MAX,
        ensures
            final(self).free_list@ == old(self).free_list@.insert(
                0,
                ListNode { size, start: addr },
            ),
            final(self).wf(),
    {
        let node = ListNode::new(addr, size);
        self.free_list.insert(0, node);
        proof {
            assert forall|i: int| 0 <= i < self.free_list@.len() implies (
            #[trigger] self.free_list@[i]).wf() by {
                if i > 0 {
                    assert(self.free_list@[i] == old(self).free_list@[i - 1]);
                }
            }
        }
    }

    /// Scan the list from the head for the first region that can serve a
    /// carve of `size` bytes and unlink it, returning the carved allocation
    /// and the leftover (if any). The leftover is not yet reinserted.
    pub fn extract_first_suitable_region(&mut self, size: usize, align: usize) -> (r: Option<
        UsableRegion,
    >)
        requires
            old(self).wf(),
            old(self).nodes_aligned(align),
        ensures
            final(self).wf(),
            final(self).nodes_aligned(align),
            match first_fit(old(self).free_list@, size) {
                None => r is None && *final(self) == *old(self),
                Some(i) => r == Some(old(self).free_list@[i].carve_spec(size))
                    && final(self).free_list@ == old(self).free_list@.remove(i),
            },
    {
        let ghost orig = self.free_list@;
        let mut idx: usize = 0;
        while idx < self.free_list.len()
            invariant
                *self == *old(self),
                orig == self.free_list@,
                self.wf(),
                self.nodes_aligned(align),
                idx <= orig.len(),
                forall|j: int| 0 <= j < idx ==> !(#[trigger] orig[j]).carve_ok(size),
            decreases orig.len() - idx,
        {
            let node = self.free_list[idx];
            match node.try_allocate(size, align) {
                Ok(usable_region) => {
                    proof {
                        lemma_first_fit_agrees(orig, size, idx as int);
                    }
                    self.free_list.remove(idx);
                    proof {
                        assert forall|i: int| 0 <= i < self.free_list@.len() implies (
                        #[trigger] self.free_list@[i]).wf() && self.free_list@[i].start % align
                            == 0 by {
                            assert(self.free_list@[i] == orig.remove(idx as int)[i]);
                        }
                    }
                    return Some(usable_region);
                },
                Err(()) => {
                    idx = idx + 1;
                },
            }
        }
        proof {
            lemma_first_fit_agrees_none(orig, size);
        }
        None
    }

    /// Allocate `layout` from the free list by first fit.
    ///
    /// The carved size and alignment are widened so that any region handed
    /// out can later be reinserted as a valid free node. On success the
    /// leftover of the carved node, if any, is pushed back at the head of
    /// the list; on failure the state is untouched.
    pub fn allocate(&mut self, layout: Layout) -> (r: Option<usize>)
        requires
            old(self).wf(),
            layout.valid(),
            old(self).nodes_aligned(ListNode::alloc_align_spec(layout)),
            alloc_excess_aligned(old(self).free_list@, layout),
        ensures
            final(self).wf(),
            final(self).free_list@ == alloc_nodes(old(self).free_list@, layout),
            r == alloc_result(old(self).free_list@, layout),
            r is Some ==> r->Some_0 % layout.align == 0,
            r is None ==> *final(self) == *old(self),
    {
        let ghost orig = self.free_list@;
        let size = ListNode::alloc_size(layout);
        let align = ListNode::alloc_align(layout);
        proof {
            lemma_first_fit_characterization(orig, size);
        }
        let usable_region = match self.extract_first_suitable_region(size, align) {
            Some(u) => u,
            None => {
                return None;
            },
        };

        let ghost i = first_fit(orig, size)->Some_0;
        let ghost chosen = orig[i];

        // If there is an excess region, add it back to the list.
        if let Some(excess) = usable_region.excess_region {
            proof {
                assert(excess.start % LIST_NODE_ALIGN == 0);
                assert(excess.size >= LIST_NODE_SIZE);
                assert(excess.start + excess.size == chosen.start + chosen.size);
            }
            self.add_free_region(excess.start, excess.size);
        }

        proof {
            let start = usable_region.alloc_region.start;
            assert(start % align == 0);
            lemma_divides_trans(start as int, align as int, layout.align as int);
        }
        Some(usable_region.alloc_region.start)
    }

    /// Hand the region `(ptr, layout)` back to the allocator.
    ///
    /// Recomputes the size that `allocate` carved for this layout and
    /// reinserts the region at the front of the list; nothing is merged.
    /// `(ptr, layout)` must match a prior successful `allocate`, which is
    /// what guarantees the alignment and bound preconditions.
    pub fn deallocate(&mut self, ptr: usize, layout: Layout)
        requires
            old(self).wf(),
            ptr % LIST_NODE_ALIGN == 0,
            ptr + ListNode::alloc_size_spec(layout) <= usize::MAX,
        ensures
            final(self).wf(),
            final(self).free_list@ == dealloc_nodes(old(self).free_list@, ptr, layout),
    {
        let size = ListNode::alloc_size(layout);
        self.add_free_region(ptr, size);
    }

    /// How many free regions the list currently tracks.
    pub fn free_region_count(&self) -> (r: usize)
        ensures
            r == self.free_list@.len(),
    {
        self.free_list.len()
    }

    /// The free region at position `i`, counted from the head.
    pub fn free_region_at(&self, i: usize) -> (r: ListNode)
        requires
            i < self.free_list@.len(),
        ensures
            r == self.free_list@[i as int],
    {
        self.free_list[i]
    }
}

/// Free-list reuse: when a request is served at address `a`, freeing
/// `(a, layout)` and repeating the identical request serves it at `a`
/// again — pure LIFO reuse through the head of the list.
pub proof fn lemma_free_list_reuse(nodes: Seq<ListNode>, layout: Layout)
    requires
        alloc_result(nodes, layout) is Some,
    ensures
        ({
            let a = alloc_result(nodes, layout)->Some_0;
            let after_free = dealloc_nodes(alloc_nodes(nodes, layout), a, layout);
            alloc_result(after_free, layout) == Some(a)
        }),
{
    let size = ListNode::alloc_size_spec(layout);
    let a = alloc_result(nodes, layout)->Some_0;
    let after_free = dealloc_nodes(alloc_nodes(nodes, layout), a, layout);
    assert(after_free[0] == ListNode { size, start: a });
    assert(after_free[0].carve_ok(size));
    assert(first_fit(after_free, size) == Some(0int));
}

/// Fragmentation boundary: a node whose leftover after the carve would be
/// strictly between zero and one node's storage rejects the carve, even
/// though its raw byte count nominally suffices.
pub proof fn lemma_fragmentation_boundary(node: ListNode, size: usize)
    requires
        size < node.size,
        node.size - size < LIST_NODE_SIZE,
    ensures
        !node.carve_ok(size),
{
}

/// Exhaustion: a request larger than every free region fails and leaves
/// the free list unchanged.
pub proof fn lemma_exhaustion(nodes: Seq<ListNode>, layout: Layout)
    requires
        forall|i: int| 0 <= i < nodes.len() ==> layout.size > (#[trigger] nodes[i]).size,
    ensures
        alloc_result(nodes, layout) is None,
        alloc_nodes(nodes, layout) == nodes,
{
    let size = ListNode::alloc_size_spec(layout);
    assert forall|j: int| 0 <= j < nodes.len() implies !(#[trigger] nodes[j]).carve_ok(size) by {
        assert(layout.size > nodes[j].size);
    }
    lemma_first_fit_agrees_none(nodes, size);
}

/// A list none of whose nodes can serve `size` has no first fit.
pub proof fn lemma_first_fit_agrees_none(nodes: Seq<ListNode>, size: usize)
    requires
        forall|j: int| 0 <= j < nodes.len() ==> !(#[trigger] nodes[j]).carve_ok(size),
    ensures
        first_fit(nodes, size) is None,
{
    lemma_first_fit_characterization(nodes, size);
    match first_fit(nodes, size) {
        Some(k) => {
            assert(!nodes[k].carve_ok(size));
        },
        None => {},
    }
}

} // verus!

use kalloc::allocator::linked_list::{
    LinkedListAllocator, ListNode, MemRegion, LIST_NODE_ALIGN, LIST_NODE_SIZE,
};
use kalloc::allocator::Layout;

const HEAP_START: usize = 0x10000;

fn heap_4096() -> LinkedListAllocator {
    let mut a = LinkedListAllocator::new();
    a.init(HEAP_START, 4096);
    a
}

/// Builds an allocator holding five free regions, whose starting addresses
/// and sizes are as given, inserted in array order.
fn allocator_with_five_blocks(addrs: [usize; 5], sizes: [usize; 5]) -> LinkedListAllocator {
    let mut a = LinkedListAllocator::new();
    for k in 0..5 {
        a.add_free_region(addrs[k], sizes[k]);
    }
    a
}

#[test]
fn assert_size_and_align() {
    assert_eq!(LIST_NODE_SIZE, 16, "a free node's storage is 16 bytes");
    assert_eq!(LIST_NODE_ALIGN, 8, "a free node is aligned to 8 bytes");
    assert_eq!(std::mem::size_of::<ListNode>(), 16);
    assert_eq!(std::mem::align_of::<ListNode>(), 8);
}

#[test]
fn node_addresses() {
    let node = ListNode::new(HEAP_START, 64);
    assert_eq!(node.start_addr(), HEAP_START);
    assert_eq!(node.end_addr(), HEAP_START + 64);
}

#[test]
fn alloc_size_and_align_are_widened() {
    assert_eq!(ListNode::alloc_size(Layout::new(4, 4)), 16);
    assert_eq!(ListNode::alloc_size(Layout::new(16, 8)), 16);
    assert_eq!(ListNode::alloc_size(Layout::new(100, 8)), 100);
    assert_eq!(ListNode::alloc_align(Layout::new(4, 1)), 8);
    assert_eq!(ListNode::alloc_align(Layout::new(4, 8)), 8);
    assert_eq!(ListNode::alloc_align(Layout::new(4, 64)), 64);
}

#[test]
fn try_allocate_size_too_large() {
    let node = ListNode::new(HEAP_START, 16);
    assert_eq!(node.try_allocate(32, 16), Err(()));
}

#[test]
fn try_allocate_remaining_size_insufficient() {
    let node = ListNode::new(HEAP_START, 47);
    // 47 - 32 = 15, but 16 bytes are needed to fit a ListNode in the excess.
    assert_eq!(node.try_allocate(32, 16), Err(()));
}

#[test]
fn try_allocate_exact_fit() {
    let node = ListNode::new(HEAP_START, 16);
    let r = node.try_allocate(16, 8).expect("exact fit succeeds");
    assert_eq!(r.alloc_region, MemRegion { start: HEAP_START, size: 16 });
    assert_eq!(r.excess_region, None);
}

#[test]
fn try_allocate_exact_fit_with_new_list_node() {
    let node = ListNode::new(HEAP_START, 32);
    let r = node.try_allocate(16, 8).expect("fits");
    assert_eq!(r.alloc_region, MemRegion { start: HEAP_START, size: 16 });
    // 32 - 16 = 16 extra bytes: exactly one ListNode.
    assert_eq!(r.excess_region, Some(MemRegion { start: HEAP_START + 16, size: 16 }));
}

#[test]
fn try_allocate_fits_with_extra_space() {
    let node = ListNode::new(HEAP_START, 64);
    let r = node.try_allocate(16, 8).expect("fits");
    assert_eq!(r.alloc_region, MemRegion { start: HEAP_START, size: 16 });
    assert_eq!(r.excess_region, Some(MemRegion { start: HEAP_START + 16, size: 48 }));
}

#[test]
fn fragmentation_boundary_rejects_every_sliver() {
    // Any leftover strictly between 0 and 15 bytes rejects the carve.
    for excess in 1..LIST_NODE_SIZE {
        let node = ListNode::new(HEAP_START, 32 + excess);
        assert_eq!(node.try_allocate(32, 8), Err(()));
    }
    // Leftover of exactly 0 or exactly 16 is accepted.
    assert!(ListNode::new(HEAP_START, 32).try_allocate(32, 8).is_ok());
    assert!(ListNode::new(HEAP_START, 48).try_allocate(32, 8).is_ok());
}

#[test]
fn add_first_free_region() {
    let mut a = LinkedListAllocator::new();
    assert_eq!(a.free_region_count(), 0);
    a.add_free_region(HEAP_START, LIST_NODE_SIZE);
    assert_eq!(a.free_region_count(), 1);
    let node = a.free_region_at(0);
    assert_eq!(node.size, LIST_NODE_SIZE);
    assert_eq!(node.start_addr(), HEAP_START);
}

#[test]
fn add_multiple_free_regions() {
    let addrs = [
        HEAP_START,
        HEAP_START + 64,
        HEAP_START + 128,
        HEAP_START + 192,
        HEAP_START + 256,
    ];
    let sizes = [32; 5];
    let a = allocator_with_five_blocks(addrs, sizes);
    assert_eq!(a.free_region_count(), 5);
    // Head insertion: the list runs in reverse insertion order.
    for k in 0..5 {
        let node = a.free_region_at(k);
        assert_eq!(node.size, 32);
        assert_eq!(node.start_addr(), addrs[4 - k]);
    }
}

#[test]
fn extract_from_empty_allocator() {
    let mut a = LinkedListAllocator::new();
    assert!(a.extract_first_suitable_region(32, 8).is_none());
}

#[test]
fn extract_single_list_node_with_insufficient_space() {
    let mut a = heap_4096();
    assert!(a.extract_first_suitable_region(8192, 8).is_none());
}

#[test]
fn extract_multiple_list_nodes_with_insufficient_space() {
    let addrs = [
        HEAP_START,
        HEAP_START + 64,
        HEAP_START + 128,
        HEAP_START + 192,
        HEAP_START + 256,
    ];
    let mut a = allocator_with_five_blocks(addrs, [32; 5]);
    assert!(
        a.extract_first_suitable_region(33, 8).is_none(),
        "requesting 33 bytes when each block is 32 should fail"
    );
}

#[test]
fn extract_multiple_list_nodes_one_has_sufficient_space() {
    let addrs = [
        HEAP_START,
        HEAP_START + 64,
        HEAP_START + 128,
        HEAP_START + 192,
        HEAP_START + 256,
    ];
    let sizes = [32, 32, 32, 64, 32];
    let mut a = allocator_with_five_blocks(addrs, sizes);
    let r = a.extract_first_suitable_region(48, 8).expect("the 64-byte block fits");
    assert_eq!(r.alloc_region.start, addrs[3]);
    assert_eq!(r.alloc_region.size, 48);
    let excess = r.excess_region.expect("48 from 64 leaves excess");
    assert_eq!(excess.start, addrs[3] + 48);
    assert_eq!(excess.size, 16);
}

#[test]
fn empty_allocator_alloc() {
    let mut a = LinkedListAllocator::new();
    assert!(a.allocate(Layout::new(8, 8)).is_none());
}

#[test]
fn simple_alloc() {
    let mut a = heap_4096();
    let ptr = a.allocate(Layout::new(8, 8)).expect("plenty of room");
    assert_eq!(ptr, HEAP_START);
}

#[test]
fn alloc_till_full() {
    let mut a = heap_4096();
    let l = Layout::new(2048, 1);
    assert_eq!(a.allocate(l), Some(HEAP_START));
    assert_eq!(a.allocate(l), Some(HEAP_START + 2048));
    assert_eq!(a.allocate(l), None, "should run out of heap");
}

#[test]
fn dealloced_memory_is_allocable() {
    let mut a = heap_4096();
    let two_kib = Layout::new(2048, 1);

    let ptr_1 = a.allocate(two_kib).expect("fits");
    let ptr_2 = a.allocate(two_kib).expect("fits");
    a.deallocate(ptr_1, two_kib);
    a.deallocate(ptr_2, two_kib);

    // Reuse the two 2 KiB chunks as four 1 KiB chunks: head-insertion
    // order dictates exactly this address sequence.
    let one_kib = Layout::new(1024, 1);
    assert_eq!(a.allocate(one_kib), Some(HEAP_START + 2048));
    assert_eq!(a.allocate(one_kib), Some(HEAP_START + 3072));
    assert_eq!(a.allocate(one_kib), Some(HEAP_START));
    assert_eq!(a.allocate(one_kib), Some(HEAP_START + 1024));
}

#[test]
fn free_list_round_trip_reuses_address() {
    let mut a = heap_4096();
    let l = Layout::new(32, 8);
    let ptr = a.allocate(l).expect("fits");
    a.deallocate(ptr, l);
    assert_eq!(a.allocate(l), Some(ptr), "LIFO reuse returns the same region");
}

#[test]
fn allocation_results_are_aligned() {
    let mut a = heap_4096();
    // First carve shifts the remaining free space to an odd multiple of 8.
    assert_eq!(a.allocate(Layout::new(24, 8)), Some(HEAP_START));
    let p = a.allocate(Layout::new(16, 4)).expect("fits");
    assert_eq!(p % 4, 0);
    assert_eq!(p % 8, 0, "alignment is widened to the node alignment");
}

#[test]
fn exhaustion_leaves_state_untouched() {
    let mut a = LinkedListAllocator::new();
    a.init(HEAP_START, 128);
    assert_eq!(a.allocate(Layout::new(256, 1)), None);
    assert_eq!(a.free_region_count(), 1);
    let node = a.free_region_at(0);
    assert_eq!(node.start_addr(), HEAP_START);
    assert_eq!(node.size, 128);
}

use kalloc::allocator::fixed_size_block::{
    block_size, list_index, FixedSizeBlockAllocator, BLOCK_CLASS_COUNT,
};
use kalloc::allocator::Layout;

const HEAP_START: usize = 0x40000;

fn heap_4096() -> FixedSizeBlockAllocator {
    let mut a = FixedSizeBlockAllocator::new();
    a.init(HEAP_START, 4096);
    a
}

#[test]
fn block_sizes_are_the_nine_powers_of_two() {
    assert_eq!(BLOCK_CLASS_COUNT, 9);
    let expected = [8, 16, 32, 64, 128, 256, 512, 1024, 2048];
    for i in 0..BLOCK_CLASS_COUNT {
        assert_eq!(block_size(i), expected[i]);
    }
}

#[test]
fn list_index_picks_smallest_sufficient_class() {
    assert_eq!(list_index(&Layout::new(1, 1)), Some(0));
    assert_eq!(list_index(&Layout::new(8, 1)), Some(0));
    assert_eq!(list_index(&Layout::new(9, 1)), Some(1));
    assert_eq!(list_index(&Layout::new(64, 1)), Some(3));
    assert_eq!(list_index(&Layout::new(65, 1)), Some(4));
    assert_eq!(list_index(&Layout::new(2048, 1)), Some(8));
    assert_eq!(list_index(&Layout::new(2049, 1)), None);
}

#[test]
fn list_index_respects_alignment() {
    // The class must cover the alignment too, since blocks are aligned to
    // their own size.
    assert_eq!(list_index(&Layout::new(16, 32)), Some(2));
    assert_eq!(list_index(&Layout::new(1, 2048)), Some(8));
    assert_eq!(list_index(&Layout::new(1, 4096)), None);
}

#[test]
fn new_state_is_empty() {
    let a = FixedSizeBlockAllocator::new();
    for i in 0..BLOCK_CLASS_COUNT {
        assert_eq!(a.class_len(i), 0);
    }
    assert_eq!(a.fallback_allocator.free_region_count(), 0);
}

#[test]
fn init_hands_the_region_to_the_fallback() {
    let a = heap_4096();
    assert_eq!(a.fallback_allocator.free_region_count(), 1);
    let node = a.fallback_allocator.free_region_at(0);
    assert_eq!(node.start_addr(), HEAP_START);
    assert_eq!(node.size, 4096);
    for i in 0..BLOCK_CLASS_COUNT {
        assert_eq!(a.class_len(i), 0);
    }
}

#[test]
fn empty_class_is_replenished_from_fallback() {
    let mut a = heap_4096();
    let l = Layout::new(64, 8);
    let p = a.allocate(l).expect("heap has room");
    assert_eq!(p, HEAP_START, "one fresh 64-byte block carved at the heap start");
    assert_eq!(p % 64, 0, "a class block is naturally aligned to its size");
    assert_eq!(a.class_len(3), 0, "the fresh block is handed out, not listed");
}

#[test]
fn freed_block_is_reused_verbatim_without_fallback() {
    let mut a = heap_4096();
    let l = Layout::new(64, 8);
    let p = a.allocate(l).expect("fits");
    a.deallocate(p, l);
    assert_eq!(a.class_len(3), 1, "the block sits in its class list");
    let fallback_regions = a.fallback_allocator.free_region_count();
    let q = a.allocate(l).expect("served from the class list");
    assert_eq!(q, p, "the freed block comes back verbatim");
    assert_eq!(
        a.fallback_allocator.free_region_count(),
        fallback_regions,
        "the fallback allocator is not consulted"
    );
    assert_eq!(a.class_len(3), 0);
}

#[test]
fn class_reuse_is_lifo() {
    let mut a = heap_4096();
    let l = Layout::new(8, 1);
    let p1 = a.allocate(l).expect("fits");
    let p2 = a.allocate(l).expect("fits");
    assert_ne!(p1, p2);
    a.deallocate(p1, l);
    a.deallocate(p2, l);
    assert_eq!(a.class_len(0), 2);
    assert_eq!(a.allocate(l), Some(p2), "last freed, first reused");
    assert_eq!(a.allocate(l), Some(p1));
}

#[test]
fn oversized_request_delegates_to_fallback() {
    let mut a = heap_4096();
    let l = Layout::new(4000, 8);
    let p = a.allocate(l).expect("the fallback region fits it");
    assert_eq!(p, HEAP_START);
    a.deallocate(p, l);
    for i in 0..BLOCK_CLASS_COUNT {
        assert_eq!(a.class_len(i), 0, "no class list is involved");
    }
    assert_eq!(a.fallback_allocator.free_region_count(), 2);
}

#[test]
fn mixed_classes_do_not_interfere() {
    let mut a = heap_4096();
    let small = Layout::new(8, 1);
    let large = Layout::new(1024, 8);
    let pl = a.allocate(large).expect("fits");
    let ps = a.allocate(small).expect("fits");
    a.deallocate(ps, small);
    a.deallocate(pl, large);
    assert_eq!(a.class_len(0), 1);
    assert_eq!(a.class_len(7), 1);
    assert_eq!(a.allocate(large), Some(pl));
    assert_eq!(a.allocate(small), Some(ps));
}

#[test]
fn class_exhaustion_fails_without_state_change() {
    let mut a = FixedSizeBlockAllocator::new();
    a.init(HEAP_START, 64);
    // Class 8 is empty and the fallback's only region cannot hold a fresh
    // 2048-byte block.
    assert_eq!(a.allocate(Layout::new(2048, 1)), None);
    for i in 0..BLOCK_CLASS_COUNT {
        assert_eq!(a.class_len(i), 0);
    }
    assert_eq!(a.fallback_allocator.free_region_count(), 1);
    assert_eq!(a.fallback_allocator.free_region_at(0).size, 64);
}

use kalloc::allocator::bump::BumpAllocator;
use kalloc::allocator::Layout;

const HEAP_START: usize = 0x8000;

fn fresh_heap(size: usize) -> BumpAllocator {
    let mut b = BumpAllocator::new();
    b.init(HEAP_START, size);
    b
}

#[test]
fn new_state_is_zeroed() {
    let b = BumpAllocator::new();
    assert_eq!(b.heap_start, 0);
    assert_eq!(b.heap_end, 0);
    assert_eq!(b.next, 0);
    assert_eq!(b.allocations, 0);
}

#[test]
fn init_sets_bounds_and_cursor() {
    let b = fresh_heap(4096);
    assert_eq!(b.heap_start, HEAP_START);
    assert_eq!(b.heap_end, HEAP_START + 4096);
    assert_eq!(b.next, HEAP_START);
    assert_eq!(b.allocations, 0);
}

#[test]
fn allocations_are_monotonic() {
    let mut b = fresh_heap(4096);
    let l = Layout::new(16, 8);
    let a1 = b.allocate(l).expect("first allocation fits");
    let a2 = b.allocate(l).expect("second allocation fits");
    let a3 = b.allocate(l).expect("third allocation fits");
    assert_eq!(a1, HEAP_START);
    assert_eq!(a2, HEAP_START + 16);
    assert_eq!(a3, HEAP_START + 32);
    assert!(a1 <= a2 && a2 <= a3);
    assert_eq!(b.allocations, 3);
}

#[test]
fn results_are_aligned() {
    let mut b = fresh_heap(4096);
    let a1 = b.allocate(Layout::new(1, 1)).expect("fits");
    assert_eq!(a1, HEAP_START);
    // The cursor is now misaligned; the next request gets rounded up.
    let a2 = b.allocate(Layout::new(4, 8)).expect("fits");
    assert_eq!(a2, HEAP_START + 8);
    assert_eq!(a2 % 8, 0);
    let a3 = b.allocate(Layout::new(5, 64)).expect("fits");
    assert_eq!(a3 % 64, 0);
}

#[test]
fn reset_after_last_dealloc_reuses_heap_start() {
    let mut b = fresh_heap(4096);
    let l = Layout::new(16, 8);
    let a1 = b.allocate(l).expect("fits");
    let a2 = b.allocate(l).expect("fits");
    assert_eq!(a1, HEAP_START);
    assert_eq!(a2, HEAP_START + 16);
    b.deallocate(a1, l);
    assert_eq!(b.allocations, 1);
    assert_eq!(b.next, HEAP_START + 32, "partial dealloc reclaims nothing");
    b.deallocate(a2, l);
    assert_eq!(b.allocations, 0);
    assert_eq!(b.next, HEAP_START, "whole heap reclaimed at once");
    let a3 = b.allocate(l).expect("fits again");
    assert_eq!(a3, HEAP_START);
}

#[test]
fn dealloc_saturates_at_zero() {
    let mut b = fresh_heap(4096);
    let l = Layout::new(16, 8);
    b.deallocate(HEAP_START, l);
    assert_eq!(b.allocations, 0);
    assert_eq!(b.next, HEAP_START);
}

#[test]
fn exhaustion_fails_without_state_change() {
    let mut b = fresh_heap(64);
    let r = b.allocate(Layout::new(128, 8));
    assert!(r.is_none());
    assert_eq!(b.next, HEAP_START);
    assert_eq!(b.allocations, 0);
}

#[test]
fn overflowing_request_fails() {
    let mut b = fresh_heap(4096);
    assert!(b.allocate(Layout::new(usize::MAX, 1)).is_none());
    let huge_align = 1usize << 63;
    assert!(b.allocate(Layout::new(16, huge_align)).is_none());
    assert_eq!(b.next, HEAP_START);
    assert_eq!(b.allocations, 0);
}

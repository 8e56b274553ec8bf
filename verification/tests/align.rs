use kalloc::allocator::{align_up, Layout};

#[test]
fn align_up_identity_on_multiples() {
    assert_eq!(align_up(0, 1), 0);
    assert_eq!(align_up(5, 1), 5);
    assert_eq!(align_up(8, 8), 8);
    assert_eq!(align_up(4096, 4096), 4096);
}

#[test]
fn align_up_rounds_to_next_multiple() {
    assert_eq!(align_up(1, 8), 8);
    assert_eq!(align_up(5, 8), 8);
    assert_eq!(align_up(9, 8), 16);
    assert_eq!(align_up(0x1001, 4096), 0x2000);
    assert_eq!(align_up(0x1fff, 4096), 0x2000);
    assert_eq!(align_up(7, 2), 8);
}

#[test]
fn align_up_result_is_aligned() {
    for addr in 0..200usize {
        for shift in 0..7u32 {
            let alignment = 1usize << shift;
            let r = align_up(addr, alignment);
            assert_eq!(r % alignment, 0);
            assert!(addr <= r && r < addr + alignment);
        }
    }
}

#[test]
fn layout_new_keeps_fields() {
    let l = Layout::new(24, 8);
    assert_eq!(l.size, 24);
    assert_eq!(l.align, 8);
}

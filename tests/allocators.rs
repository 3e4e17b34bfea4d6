use stdx::allocator::fixed_buffer::FixedBufferAllocator;
use stdx::allocator::malloc::malloc_align;
use stdx::allocator::vmem::VirtualMemoryAllocator;
use stdx::allocator::{AllocError, Allocator, Block};
use stdx::layout::{Layout, LayoutError};

fn layout(size: usize, align: usize) -> Layout {
    Layout::from_size_align(size, align).unwrap()
}

#[test]
fn layout_accepts_powers_of_two() {
    let l = layout(12, 4);
    assert_eq!(l.size(), 12);
    assert_eq!(l.align(), 4);
    assert!(Layout::from_size_align(0, 1).is_ok());
}

#[test]
fn layout_rejects_bad_alignment() {
    assert_eq!(Layout::from_size_align(8, 0), Err(LayoutError::BadAlign));
    assert_eq!(Layout::from_size_align(8, 3), Err(LayoutError::BadAlign));
    assert_eq!(Layout::from_size_align(8, 12), Err(LayoutError::BadAlign));
}

#[test]
fn layout_rejects_oversized() {
    let max = isize::MAX as usize;
    assert!(Layout::from_size_align(max, 1).is_ok());
    assert_eq!(Layout::from_size_align(max, 2), Err(LayoutError::TooLarge));
    assert_eq!(Layout::from_size_align(max + 1, 1), Err(LayoutError::TooLarge));
    assert_eq!(Layout::from_size_align(usize::MAX, 8), Err(LayoutError::TooLarge));
}

#[test]
fn malloc_alignment_rounds_up_to_pointer_size() {
    assert_eq!(malloc_align(layout(1, 1)), 8);
    assert_eq!(malloc_align(layout(1, 4)), 8);
    assert_eq!(malloc_align(layout(1, 8)), 8);
    assert_eq!(malloc_align(layout(1, 64)), 64);
}

#[test]
fn fixed_buffer_fills_byte_for_byte() {
    let mut fba = FixedBufferAllocator::new(vec![0u8; 8]);
    let a = fba.allocate(layout(1, 1));
    assert_eq!(a, Ok(Block { addr: 0, len: 1 }));
    let b = fba.allocate(layout(7, 1));
    assert_eq!(b, Ok(Block { addr: 1, len: 7 }));
    assert_eq!(fba.remaining(), 0);
    assert_eq!(fba.allocate(layout(1, 1)), Err(AllocError));
}

#[test]
fn fixed_buffer_releases_only_most_recent() {
    let mut fba = FixedBufferAllocator::new(vec![0u8; 2]);
    let a = fba.allocate(layout(1, 1)).unwrap();
    let b = fba.allocate(layout(1, 1)).unwrap();
    assert_eq!(fba.remaining(), 0);
    fba.deallocate(a, layout(1, 1));
    assert_eq!(fba.remaining(), 0);
    fba.deallocate(b, layout(1, 1));
    assert_eq!(fba.remaining(), 1);
    fba.deallocate(a, layout(1, 1));
    assert_eq!(fba.remaining(), 2);
}

#[test]
fn fixed_buffer_aligns_absolute_addresses() {
    let mut fba = FixedBufferAllocator::from_raw_parts(3, vec![0u8; 16]);
    assert_eq!(fba.base(), 3);
    let a = fba.allocate(layout(2, 4)).unwrap();
    assert_eq!(a, Block { addr: 4, len: 2 });
    let b = fba.allocate(layout(1, 8)).unwrap();
    assert_eq!(b, Block { addr: 8, len: 1 });
    assert_eq!(fba.remaining(), 10);
    assert_eq!(fba.allocate(layout(4, 16)), Err(AllocError));
}

#[test]
fn fixed_buffer_grows_last_block_in_place() {
    let mut fba = FixedBufferAllocator::new(vec![0u8; 16]);
    let a = fba.allocate(layout(4, 4)).unwrap();
    let g = fba.grow(a, layout(4, 4), layout(12, 4)).unwrap();
    assert_eq!(g, Block { addr: 0, len: 12 });
    assert_eq!(fba.remaining(), 4);
    assert_eq!(fba.grow(g, layout(12, 4), layout(20, 4)), Err(AllocError));
    assert_eq!(fba.remaining(), 4);
}

#[test]
fn fixed_buffer_refuses_to_grow_older_block_in_place() {
    let mut fba = FixedBufferAllocator::new(vec![0u8; 16]);
    let a = fba.allocate(layout(2, 1)).unwrap();
    let _b = fba.allocate(layout(2, 1)).unwrap();
    assert_eq!(fba.grow(a, layout(2, 1), layout(4, 1)), Err(AllocError));
    assert_eq!(fba.remaining(), 12);
}

#[test]
fn fixed_buffer_grow_with_new_alignment_moves_bytes() {
    let mut fba = FixedBufferAllocator::new(vec![0u8; 32]);
    let a = fba.allocate(layout(3, 1)).unwrap();
    assert_eq!(a.addr, 0);
    assert!(fba.write(0, 7));
    assert!(fba.write(1, 8));
    assert!(fba.write(2, 9));
    let g = fba.grow(a, layout(3, 1), layout(8, 8)).unwrap();
    assert_eq!(g, Block { addr: 8, len: 8 });
    assert_eq!(fba.read(8), Some(7));
    assert_eq!(fba.read(9), Some(8));
    assert_eq!(fba.read(10), Some(9));
    assert_eq!(fba.read(0), Some(7));
    assert_eq!(fba.remaining(), 16);
    assert_eq!(fba.read(32), None);
    assert!(!fba.write(32, 1));
}

#[test]
fn fixed_buffer_shrinks_in_place() {
    let mut fba = FixedBufferAllocator::new(vec![0u8; 16]);
    let a = fba.allocate(layout(8, 4)).unwrap();
    let s = fba.shrink(a, layout(8, 4), layout(2, 2)).unwrap();
    assert_eq!(s, Block { addr: 0, len: 2 });
    assert_eq!(fba.remaining(), 14);
}

#[test]
fn fixed_buffer_shrink_to_stricter_alignment_moves_bytes() {
    let mut fba = FixedBufferAllocator::from_raw_parts(1, vec![0u8; 16]);
    let a = fba.allocate(layout(4, 1)).unwrap();
    assert_eq!(a.addr, 1);
    assert!(fba.write(1, 5));
    assert!(fba.write(2, 6));
    let s = fba.shrink(a, layout(4, 1), layout(2, 4)).unwrap();
    assert_eq!(s, Block { addr: 8, len: 2 });
    assert_eq!(fba.read(8), Some(5));
    assert_eq!(fba.read(9), Some(6));
    assert_eq!(fba.into_inner().len(), 16);
}

#[test]
fn virtual_memory_allocator_hands_out_its_range() {
    let mut vm = VirtualMemoryAllocator::new(64).unwrap();
    assert_eq!(vm.size(), 64);
    let a = vm.allocate(layout(16, 8)).unwrap();
    assert_eq!(a, Block { addr: 0, len: 16 });
    let g = vm.grow(a, layout(16, 8), layout(32, 8)).unwrap();
    assert_eq!(g, Block { addr: 0, len: 32 });
    assert_eq!(vm.remaining(), 32);
    vm.deallocate(g, layout(32, 8));
    assert_eq!(vm.remaining(), 64);
    assert_eq!(vm.allocate(layout(65, 1)), Err(AllocError));
}

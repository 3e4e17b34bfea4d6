use stdx::allocator::fixed_buffer::FixedBufferAllocator;
use stdx::allocator::{AllocError, Allocator, Block};
use stdx::array::Array;
use stdx::layout::Layout;
use stdx::multi_array::{soa_layout, MultiArray};
use stdx::raw_array::RawArray;

/// Counts the calls that reach the allocator it wraps.
struct Counting {
    inner: FixedBufferAllocator,
    allocations: usize,
    grows: usize,
}

impl Counting {
    fn new(bytes: usize) -> Counting {
        Counting { inner: FixedBufferAllocator::new(vec![0u8; bytes]), allocations: 0, grows: 0 }
    }
}

impl Allocator for Counting {
    fn inv(&self) -> bool {
        true
    }

    fn allocates(self, _next: Self, _layout: Layout, _r: Result<Block, AllocError>) -> bool {
        true
    }

    fn grows(self, _next: Self, _block: Block, _old: Layout, _new: Layout, _r: Result<Block, AllocError>) -> bool {
        true
    }

    fn shrinks(self, _next: Self, _block: Block, _old: Layout, _new: Layout, _r: Result<Block, AllocError>) -> bool {
        true
    }

    fn deallocates(self, _next: Self, _block: Block, _layout: Layout) -> bool {
        true
    }

    fn allocate(&mut self, layout: Layout) -> Result<Block, AllocError> {
        self.allocations += 1;
        self.inner.allocate(layout)
    }

    fn grow(&mut self, block: Block, old: Layout, new: Layout) -> Result<Block, AllocError> {
        self.grows += 1;
        self.inner.grow(block, old, new)
    }

    fn shrink(&mut self, block: Block, old: Layout, new: Layout) -> Result<Block, AllocError> {
        self.inner.shrink(block, old, new)
    }

    fn deallocate(&mut self, block: Block, layout: Layout) {
        self.inner.deallocate(block, layout)
    }
}

fn fba(bytes: usize) -> FixedBufferAllocator {
    FixedBufferAllocator::new(vec![0u8; bytes])
}

#[test]
fn pushes_then_pops_come_back_reversed() {
    let mut alloc = fba(1024);
    let mut a: RawArray<u32> = RawArray::new();
    for v in [3u32, 1, 4, 1, 5] {
        a.push(v, &mut alloc).unwrap();
    }
    let mut out = Vec::new();
    for _ in 0..5 {
        out.push(a.pop().unwrap());
    }
    assert_eq!(out, vec![5, 1, 4, 1, 3]);
    assert_eq!(a.len(), 0);
    assert_eq!(a.pop(), None);
}

#[test]
fn first_push_allocates_baseline_then_doubles() {
    let mut alloc = Counting::new(4096);
    let mut a: RawArray<u64> = RawArray::new();
    assert_eq!(a.capacity(), 0);
    a.push(1, &mut alloc).unwrap();
    assert_eq!(a.capacity(), 16);
    assert_eq!(alloc.allocations, 1);
    for v in 2..=16u64 {
        a.push(v, &mut alloc).unwrap();
    }
    assert_eq!(a.capacity(), 16);
    assert_eq!(alloc.grows, 0);
    a.push(17, &mut alloc).unwrap();
    assert_eq!(a.capacity(), 32);
    assert_eq!(alloc.grows, 1);
    assert_eq!(a.len(), 17);
    assert_eq!(a.as_slice()[16], 17);
}

#[test]
fn reserve_then_pushes_do_not_allocate_again() {
    let mut alloc = Counting::new(4096);
    let mut a: RawArray<u16> = RawArray::new();
    a.reserve(40, &mut alloc).unwrap();
    assert_eq!(a.capacity(), 40);
    assert_eq!(alloc.allocations, 1);
    for v in 0..40u16 {
        a.push(v, &mut alloc).unwrap();
    }
    assert_eq!(alloc.allocations, 1);
    assert_eq!(alloc.grows, 0);
    assert_eq!(a.len(), 40);
}

#[test]
fn reserve_with_room_changes_nothing() {
    let mut alloc = Counting::new(1024);
    let mut a: RawArray<u8> = RawArray::with_capacity(8, &mut alloc).unwrap();
    a.push(1, &mut alloc).unwrap();
    a.reserve(7, &mut alloc).unwrap();
    assert_eq!(a.capacity(), 8);
    assert_eq!(alloc.allocations, 1);
    assert_eq!(alloc.grows, 0);
}

#[test]
fn reserve_grows_to_double_or_what_is_needed() {
    let mut alloc = fba(1024);
    let mut a: RawArray<u8> = RawArray::with_capacity(4, &mut alloc).unwrap();
    a.reserve(5, &mut alloc).unwrap();
    assert_eq!(a.capacity(), 8);
    a.reserve(20, &mut alloc).unwrap();
    assert_eq!(a.capacity(), 20);
}

#[test]
fn failed_reserve_leaves_array_unchanged() {
    let mut alloc = fba(8);
    let mut a: RawArray<u32> = RawArray::new();
    a.reserve(2, &mut alloc).unwrap();
    a.push(9, &mut alloc).unwrap();
    assert_eq!(a.reserve(5, &mut alloc), Err(AllocError));
    assert_eq!(a.capacity(), 2);
    assert_eq!(a.as_slice(), &[9]);
    assert_eq!(a.reserve(usize::MAX, &mut alloc), Err(AllocError));
    assert_eq!(a.capacity(), 2);
}

#[test]
fn with_capacity_rejects_oversized() {
    let mut alloc = fba(8);
    let r: Result<RawArray<u64>, AllocError> = RawArray::with_capacity(usize::MAX / 4, &mut alloc);
    assert!(r.is_err());
}

#[test]
fn push_within_capacity_never_allocates() {
    let mut alloc = fba(64);
    let mut a: RawArray<u8> = RawArray::new();
    assert_eq!(a.push_within_capacity(1), Err(1));
    a.reserve(1, &mut alloc).unwrap();
    assert_eq!(a.push_within_capacity(2), Ok(()));
    assert_eq!(a.push_within_capacity(3), Err(3));
    assert_eq!(a.as_slice(), &[2]);
}

#[test]
fn insert_then_remove_restores() {
    let mut alloc = fba(1024);
    let mut a: RawArray<i32> = RawArray::new();
    for v in [10, 20, 30] {
        a.push(v, &mut alloc).unwrap();
    }
    assert_eq!(a.insert(1, 15, &mut alloc), Ok(Some(())));
    assert_eq!(a.as_slice(), &[10, 15, 20, 30]);
    assert_eq!(a.remove(1), Some(15));
    assert_eq!(a.as_slice(), &[10, 20, 30]);
    assert_eq!(a.insert(3, 40, &mut alloc), Ok(Some(())));
    assert_eq!(a.as_slice(), &[10, 20, 30, 40]);
    assert_eq!(a.remove(3), Some(40));
    assert_eq!(a.as_slice(), &[10, 20, 30]);
}

#[test]
fn insert_and_remove_out_of_bounds_report_not_found() {
    let mut alloc = fba(1024);
    let mut a: RawArray<i32> = RawArray::new();
    assert_eq!(a.remove(0), None);
    assert_eq!(a.swap_remove(0), None);
    assert_eq!(a.insert(1, 5, &mut alloc), Ok(None));
    assert_eq!(a.len(), 0);
    a.push(1, &mut alloc).unwrap();
    assert_eq!(a.remove(1), None);
    assert_eq!(a.insert(2, 5, &mut alloc), Ok(None));
    assert_eq!(a.as_slice(), &[1]);
}

#[test]
fn insert_into_empty_array_allocates() {
    let mut alloc = Counting::new(1024);
    let mut a: RawArray<u8> = RawArray::new();
    assert_eq!(a.insert(0, 7, &mut alloc), Ok(Some(())));
    assert_eq!(a.capacity(), 16);
    assert_eq!(alloc.allocations, 1);
    a.insert_unchecked(0, 6, &mut alloc).unwrap();
    assert_eq!(a.as_slice(), &[6, 7]);
    assert_eq!(a.remove_unchecked(1), 7);
}

#[test]
fn swap_remove_keeps_the_same_elements_as_remove() {
    let mut alloc = fba(1024);
    let mut a: RawArray<u8> = RawArray::new();
    let mut b: RawArray<u8> = RawArray::new();
    for v in [1u8, 2, 3, 4, 5] {
        a.push(v, &mut alloc).unwrap();
        b.push(v, &mut alloc).unwrap();
    }
    assert_eq!(a.swap_remove(1), Some(2));
    assert_eq!(b.remove(1), Some(2));
    assert_eq!(a.as_slice(), &[1, 5, 3, 4]);
    assert_eq!(b.as_slice(), &[1, 3, 4, 5]);
    let mut sa = a.as_slice().to_vec();
    sa.sort();
    assert_eq!(sa, b.as_slice().to_vec());
    assert_eq!(a.swap_remove(3), Some(4));
    assert_eq!(a.as_slice(), &[1, 5, 3]);
    assert_eq!(a.swap_remove_unchecked(0), 1);
    assert_eq!(a.as_slice(), &[3, 5]);
}

#[test]
fn truncate_twice_is_truncate_once() {
    let mut alloc = fba(1024);
    let mut a: RawArray<u8> = RawArray::new();
    for v in 0..6u8 {
        a.push(v, &mut alloc).unwrap();
    }
    a.truncate(4);
    assert_eq!(a.as_slice(), &[0, 1, 2, 3]);
    a.truncate(4);
    assert_eq!(a.as_slice(), &[0, 1, 2, 3]);
    a.truncate(10);
    assert_eq!(a.len(), 4);
    a.truncate(0);
    assert_eq!(a.len(), 0);
    assert_eq!(a.capacity(), 16);
}

#[test]
fn clear_keeps_capacity() {
    let mut alloc = fba(1024);
    let mut a: RawArray<u8> = RawArray::new();
    a.push(1, &mut alloc).unwrap();
    a.clear();
    assert_eq!(a.len(), 0);
    assert_eq!(a.capacity(), 16);
}

#[test]
fn append_moves_everything() {
    let mut alloc = fba(1024);
    let mut a: RawArray<u8> = RawArray::new();
    let mut b: RawArray<u8> = RawArray::new();
    a.push(1, &mut alloc).unwrap();
    for v in [2u8, 3, 4] {
        b.push(v, &mut alloc).unwrap();
    }
    a.append(&mut b, &mut alloc).unwrap();
    assert_eq!(a.as_slice(), &[1, 2, 3, 4]);
    assert_eq!(b.len(), 0);
    assert_eq!(b.capacity(), 16);
}

#[test]
fn array_keeps_its_allocator() {
    let mut alloc = fba(1024);
    let mut a: Array<FixedBufferAllocator, u32> = Array::new(&mut alloc);
    a.push(1).unwrap();
    a.push(2).unwrap();
    a.insert(0, 0).unwrap();
    assert_eq!(a.as_slice(), &[0, 1, 2]);
    assert_eq!(a.capacity(), 16);
    assert_eq!(a.pop(), Some(2));
    assert_eq!(a.swap_remove(0), Some(0));
    assert_eq!(a.as_slice(), &[1]);
    a.truncate(0);
    assert_eq!(a.len(), 0);
    a.reserve(20).unwrap();
    assert_eq!(a.capacity(), 32);
    assert_eq!(a.push_within_capacity(5), Ok(()));
    a.clear();
    assert_eq!(a.len(), 0);
}

#[test]
fn array_with_capacity_and_append() {
    let mut first = fba(256);
    let mut second = fba(256);
    let mut a: Array<FixedBufferAllocator, u8> = Array::with_capacity(2, &mut first).unwrap();
    let mut b: Array<FixedBufferAllocator, u8> = Array::new(&mut second);
    assert_eq!(a.capacity(), 2);
    b.push(7).unwrap();
    b.push(8).unwrap();
    b.push(9).unwrap();
    a.append(&mut b).unwrap();
    assert_eq!(a.as_slice(), &[7, 8, 9]);
    assert_eq!(b.len(), 0);
    assert_eq!(a.remove(1), Some(8));
    assert_eq!(a.remove_unchecked(0), 7);
    a.insert_unchecked(1, 4).unwrap();
    assert_eq!(a.as_slice(), &[9, 4]);
    assert_eq!(a.swap_remove_unchecked(0), 9);
}

#[test]
fn multi_array_segments_follow_field_alignment() {
    let (layout, offsets) = soa_layout(&[(4, 4), (1, 1)], 10).unwrap();
    assert_eq!(offsets, vec![0, 40]);
    assert_eq!(layout.size(), 50);
    assert_eq!(layout.align(), 4);
    let (layout, offsets) = soa_layout(&[(1, 1), (8, 8), (2, 2)], 3).unwrap();
    assert_eq!(offsets, vec![0, 8, 32]);
    assert_eq!(layout.size(), 38);
    assert_eq!(layout.align(), 8);
    assert!(soa_layout(&[(8, 8), (8, 8)], usize::MAX / 8).is_err());
}

#[test]
fn multi_array_with_capacity_places_segments() {
    let mut alloc = FixedBufferAllocator::from_raw_parts(2, vec![0u8; 256]);
    let (a, segments) = MultiArray::<2, (u32, u8)>::with_capacity(10, &mut alloc).unwrap();
    assert_eq!(segments, vec![4, 44]);
    assert_eq!(a.capacity(), 10);
    assert_eq!(a.len(), 0);
    assert_eq!(a.segment(1), 44);
    assert_eq!(a.slot(0, 3), 4 + 12);
    assert_eq!(a.slot(1, 9), 44 + 9);
    assert_eq!(alloc.remaining(), 256 - 2 - 50);
}

#[test]
fn multi_array_grows_and_relays_segments() {
    let mut alloc = fba(1024);
    let mut a: MultiArray<3, (u8, u64, u16)> = MultiArray::new();
    a.push((1, 10, 100), &mut alloc).unwrap();
    assert_eq!(a.capacity(), 16);
    assert_eq!(a.segment(1), 16);
    assert_eq!(a.segment(2), 16 + 8 * 16);
    for i in 0..16u8 {
        a.push((i, i as u64, i as u16), &mut alloc).unwrap();
    }
    assert_eq!(a.capacity(), 32);
    assert_eq!(a.segment(1), a.segment(0) + 32);
    assert_eq!(a.len(), 17);
    assert_eq!(a.pop(), Some((15, 15, 15)));
    assert_eq!(a.remove(0), Some((1, 10, 100)));
    assert_eq!(a.swap_remove(0), Some((0, 0, 0)));
    a.truncate(2);
    assert_eq!(a.as_slice(), &[(14, 14, 14), (1, 1, 1)]);
    a.clear();
    assert_eq!(a.len(), 0);
}

//! An allocator over one range reserved up front.

use super::fixed_buffer::{allocated, grown, released, shrunk, FixedBufferAllocator};
use super::{AllocError, Allocator, Block};
use crate::layout::Layout;
use vstd::prelude::*;

verus! {

/// Reserves `size` bytes in one request when it is made, then hands them out
/// through an inner [`FixedBufferAllocator`]. The reservation is taken from
/// the heap and zero-filled at once, so all of it is committed up front
/// rather than page by page on first use.
pub struct VirtualMemoryAllocator {
    size: usize,
    fba: FixedBufferAllocator,
}

impl VirtualMemoryAllocator {
    /// The allocator that hands out the reserved range.
    pub closed spec fn inner(&self) -> FixedBufferAllocator {
        self.fba
    }

    pub closed spec fn spec_size(&self) -> nat {
        self.size as nat
    }

    pub closed spec fn wf(&self) -> bool {
        &&& self.fba.wf()
        &&& self.fba.contents().len() == self.size
        &&& self.fba.spec_base() == 0
    }

    /// Reserves `size` bytes; fails with `AllocError` when the reservation is
    /// refused.
    pub fn new(size: usize) -> (r: Result<VirtualMemoryAllocator, AllocError>)
        ensures
            r matches Ok(v) ==> {
                &&& v.wf()
                &&& v.spec_size() == size
                &&& v.inner().spec_base() == 0
                &&& v.inner().spec_cursor() == 0
                &&& v.inner().spec_end() == size
            },
    {
        let mut mem: Vec<u8> = Vec::new();
        match mem.try_reserve(size) {
            Ok(()) => {},
            Err(_) => return Err(AllocError),
        }
        mem.resize(size, 0u8);
        Ok(VirtualMemoryAllocator { size, fba: FixedBufferAllocator::new(mem) })
    }

    /// Number of bytes reserved.
    pub fn size(&self) -> (r: usize)
        ensures
            r == self.spec_size(),
    {
        self.size
    }

    /// Number of reserved bytes not yet handed out.
    pub fn remaining(&self) -> (r: usize)
        requires
            self.wf(),
        ensures
            r == self.inner().spec_end() - self.inner().spec_cursor(),
    {
        self.fba.remaining()
    }
}

impl Allocator for VirtualMemoryAllocator {
    open spec fn inv(&self) -> bool {
        self.wf()
    }

    open spec fn allocates(self, next: Self, layout: Layout, r: Result<Block, AllocError>) -> bool {
        next.spec_size() == self.spec_size() && allocated(self.inner(), next.inner(), layout, r)
    }

    open spec fn grows(
        self,
        next: Self,
        block: Block,
        old_layout: Layout,
        new_layout: Layout,
        r: Result<Block, AllocError>,
    ) -> bool {
        next.spec_size() == self.spec_size() && grown(
            self.inner(),
            next.inner(),
            block,
            old_layout,
            new_layout,
            r,
        )
    }

    open spec fn shrinks(
        self,
        next: Self,
        block: Block,
        old_layout: Layout,
        new_layout: Layout,
        r: Result<Block, AllocError>,
    ) -> bool {
        next.spec_size() == self.spec_size() && shrunk(
            self.inner(),
            next.inner(),
            block,
            old_layout,
            new_layout,
            r,
        )
    }

    open spec fn deallocates(self, next: Self, block: Block, layout: Layout) -> bool {
        next.spec_size() == self.spec_size() && released(self.inner(), next.inner(), block, layout)
    }

    fn allocate(&mut self, layout: Layout) -> (r: Result<Block, AllocError>)
        ensures
            final(self).spec_size() == old(self).spec_size(),
            allocated(old(self).inner(), final(self).inner(), layout, r),
    {
        self.fba.allocate(layout)
    }

    fn grow(&mut self, block: Block, old_layout: Layout, new_layout: Layout) -> (r: Result<
        Block,
        AllocError,
    >)
        ensures
            final(self).spec_size() == old(self).spec_size(),
            grown(old(self).inner(), final(self).inner(), block, old_layout, new_layout, r),
    {
        self.fba.grow(block, old_layout, new_layout)
    }

    fn shrink(&mut self, block: Block, old_layout: Layout, new_layout: Layout) -> (r: Result<
        Block,
        AllocError,
    >)
        ensures
            final(self).spec_size() == old(self).spec_size(),
            shrunk(old(self).inner(), final(self).inner(), block, old_layout, new_layout, r),
    {
        self.fba.shrink(block, old_layout, new_layout)
    }

    fn deallocate(&mut self, block: Block, layout: Layout)
        ensures
            final(self).spec_size() == old(self).spec_size(),
            released(old(self).inner(), final(self).inner(), block, layout),
    {
        self.fba.deallocate(block, layout)
    }
}

} // verus!

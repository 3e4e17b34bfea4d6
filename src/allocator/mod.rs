//! The allocation capability and the allocators that provide it.
//!
//! A [`Block`] is a byte range `[addr, addr + len)` handed out by an
//! allocator. Allocators are interchangeable: every container works against
//! any [`Allocator`].

use crate::layout::Layout;
use vstd::prelude::*;

pub mod fixed_buffer;
pub mod malloc;
pub mod vmem;

verus! {

/// The only recoverable failure: the allocator is exhausted, or a size or
/// alignment computation would overflow.
#[derive(Debug, Clone, Copy, PartialEq, Eq, Structural)]
pub struct AllocError;

/// A byte range returned by an allocator.
#[derive(Debug, Clone, Copy, PartialEq, Eq, Structural)]
pub struct Block {
    pub addr: usize,
    pub len: usize,
}

/// The block holds at least `layout`'s size, starts at an address aligned to
/// `layout`'s alignment, and lies inside the address space.
pub open spec fn block_fits(b: Block, layout: Layout) -> bool {
    &&& b.len >= layout.spec_size()
    &&& b.addr as int % layout.spec_align() as int == 0
    &&& b.addr + b.len <= usize::MAX
}

/// The capability every allocator provides. Each implementation says, by
/// the four relations below, how each call may change its state and what it
/// may return; every call is then known to have made exactly that request.
pub trait Allocator: Sized {
    /// What the allocator's own state keeps true between calls.
    spec fn inv(&self) -> bool;

    /// `allocate(layout)` may take the allocator from `self` to `next` and
    /// return `r`.
    spec fn allocates(self, next: Self, layout: Layout, r: Result<Block, AllocError>) -> bool;

    /// `grow(block, old_layout, new_layout)` may take the allocator from
    /// `self` to `next` and return `r`.
    spec fn grows(
        self,
        next: Self,
        block: Block,
        old_layout: Layout,
        new_layout: Layout,
        r: Result<Block, AllocError>,
    ) -> bool;

    /// `shrink(block, old_layout, new_layout)` may take the allocator from
    /// `self` to `next` and return `r`.
    spec fn shrinks(
        self,
        next: Self,
        block: Block,
        old_layout: Layout,
        new_layout: Layout,
        r: Result<Block, AllocError>,
    ) -> bool;

    /// `deallocate(block, layout)` may take the allocator from `self` to
    /// `next`.
    spec fn deallocates(self, next: Self, block: Block, layout: Layout) -> bool;

    /// Returns a block of at least `layout.size()` bytes aligned to
    /// `layout.align()`, or `AllocError`.
    fn allocate(&mut self, layout: Layout) -> (r: Result<Block, AllocError>)
        requires
            old(self).inv(),
            layout.wf(),
        ensures
            final(self).inv(),
            r matches Ok(b) ==> block_fits(b, layout),
            (*old(self)).allocates(*final(self), layout, r),
    ;

    /// Enlarges `block`, which was obtained with `old_layout`, to
    /// `new_layout`; the first `old_layout.size()` bytes are kept.
    fn grow(&mut self, block: Block, old_layout: Layout, new_layout: Layout) -> (r: Result<
        Block,
        AllocError,
    >)
        requires
            old(self).inv(),
            old_layout.wf(),
            new_layout.wf(),
            old_layout.spec_size() <= new_layout.spec_size(),
        ensures
            final(self).inv(),
            r matches Ok(b) ==> block_fits(b, new_layout),
            (*old(self)).grows(*final(self), block, old_layout, new_layout, r),
    ;

    /// Reduces `block`, which was obtained with `old_layout`, to
    /// `new_layout`; the first `new_layout.size()` bytes are kept.
    fn shrink(&mut self, block: Block, old_layout: Layout, new_layout: Layout) -> (r: Result<
        Block,
        AllocError,
    >)
        requires
            old(self).inv(),
            old_layout.wf(),
            new_layout.wf(),
            new_layout.spec_size() <= old_layout.spec_size(),
        ensures
            final(self).inv(),
            r matches Ok(b) ==> block_fits(b, new_layout),
            (*old(self)).shrinks(*final(self), block, old_layout, new_layout, r),
    ;

    /// Releases `block`, which was obtained with `layout`.
    fn deallocate(&mut self, block: Block, layout: Layout)
        requires
            old(self).inv(),
            layout.wf(),
        ensures
            final(self).inv(),
            (*old(self)).deallocates(*final(self), block, layout),
    ;
}

} // verus!

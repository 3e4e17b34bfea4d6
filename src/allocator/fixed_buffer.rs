//! A bump allocator over a caller-supplied buffer.

use super::{block_fits, AllocError, Allocator, Block};
use crate::layout::{align_up, checked_align_up, lemma_align_up, Layout};
use vstd::prelude::*;

verus! {

/// `m` with the `n` bytes at `src` copied over the `n` bytes at `dst`.
pub open spec fn copy_within(m: Seq<u8>, src: int, dst: int, n: int) -> Seq<u8> {
    Seq::new(m.len(), |i: int| if dst <= i < dst + n { m[src + (i - dst)] } else { m[i] })
}

/// Hands out consecutive, aligned sub-ranges of a fixed buffer by advancing a
/// cursor. Growing, shrinking and releasing take effect in place only on the
/// most recently returned block.
pub struct FixedBufferAllocator {
    /// Address of the buffer's first byte.
    base: usize,
    /// Address of the first byte not handed out.
    cursor: usize,
    /// The buffer's bytes.
    mem: Vec<u8>,
}

impl FixedBufferAllocator {
    /// Address of the buffer's first byte.
    pub closed spec fn spec_base(&self) -> int {
        self.base as int
    }

    /// Address of the first byte not handed out.
    pub closed spec fn spec_cursor(&self) -> int {
        self.cursor as int
    }

    /// Address just past the buffer.
    pub open spec fn spec_end(&self) -> int {
        self.spec_base() + self.contents().len()
    }

    /// The bytes of the buffer, the first at `spec_base()`.
    pub closed spec fn contents(&self) -> Seq<u8> {
        self.mem@
    }

    pub closed spec fn wf(&self) -> bool {
        &&& self.base <= self.cursor
        &&& self.cursor <= self.base + self.mem@.len()
        &&& self.base + self.mem@.len() <= usize::MAX
    }

    /// `block`, obtained with `size` bytes, ends exactly at the cursor: it is
    /// the most recently returned block.
    pub open spec fn is_last(&self, block: Block, size: int) -> bool {
        &&& self.spec_base() <= block.addr
        &&& block.addr + size == self.spec_cursor()
    }

    /// `size` bytes at `block` lie inside the part of the buffer handed out.
    pub open spec fn in_use(&self, block: Block, size: int) -> bool {
        &&& self.spec_base() <= block.addr
        &&& block.addr + size <= self.spec_cursor()
    }

    /// Where the next block with alignment `align` would start.
    pub open spec fn next_start(&self, align: int) -> int {
        align_up(self.spec_cursor(), align)
    }

    /// A fresh block for `layout` fits in what is left.
    pub open spec fn can_fit(&self, layout: Layout) -> bool {
        self.next_start(layout.spec_align() as int) + layout.spec_size() <= self.spec_end()
    }

    /// Manages `buffer`, whose first byte stands at address 0.
    pub fn new(buffer: Vec<u8>) -> (r: FixedBufferAllocator)
        ensures
            r.wf(),
            r.spec_base() == 0,
            r.spec_cursor() == 0,
            r.contents() == buffer@,
    {
        let _len = buffer.len();
        FixedBufferAllocator { base: 0, cursor: 0, mem: buffer }
    }

    /// Manages `buffer`, whose first byte stands at address `base`.
    pub fn from_raw_parts(base: usize, buffer: Vec<u8>) -> (r: FixedBufferAllocator)
        requires
            base + buffer@.len() <= usize::MAX,
        ensures
            r.wf(),
            r.spec_base() == base,
            r.spec_cursor() == base,
            r.contents() == buffer@,
    {
        FixedBufferAllocator { base, cursor: base, mem: buffer }
    }

    /// Address of the buffer's first byte.
    pub fn base(&self) -> (r: usize)
        ensures
            r == self.spec_base(),
    {
        self.base
    }

    /// Number of bytes not yet handed out.
    pub fn remaining(&self) -> (r: usize)
        requires
            self.wf(),
        ensures
            r == self.spec_end() - self.spec_cursor(),
    {
        self.base + self.mem.len() - self.cursor
    }

    /// Size of the buffer in bytes.
    pub fn buffer_len(&self) -> (r: usize)
        ensures
            r == self.contents().len(),
    {
        self.mem.len()
    }

    /// The byte at address `addr`, if it lies in the buffer.
    pub fn read(&self, addr: usize) -> (r: Option<u8>)
        requires
            self.wf(),
        ensures
            match r {
                Some(b) => self.spec_base() <= addr < self.spec_end() && b == self.contents()[addr
                    - self.spec_base()],
                None => !(self.spec_base() <= addr < self.spec_end()),
            },
    {
        if addr < self.base || addr - self.base >= self.mem.len() {
            None
        } else {
            Some(self.mem[addr - self.base])
        }
    }

    /// Stores `byte` at address `addr`; returns whether `addr` lies in the
    /// buffer.
    pub fn write(&mut self, addr: usize, byte: u8) -> (r: bool)
        requires
            old(self).wf(),
        ensures
            final(self).wf(),
            r == (old(self).spec_base() <= addr < old(self).spec_end()),
            final(self).spec_base() == old(self).spec_base(),
            final(self).spec_cursor() == old(self).spec_cursor(),
            r ==> final(self).contents() == old(self).contents().update(
                addr - old(self).spec_base(),
                byte,
            ),
            !r ==> final(self).contents() == old(self).contents(),
    {
        if addr < self.base || addr - self.base >= self.mem.len() {
            false
        } else {
            let i = addr - self.base;
            self.mem.set(i, byte);
            true
        }
    }

    /// Gives the buffer back.
    pub fn into_inner(self) -> (r: Vec<u8>)
        ensures
            r@ == self.contents(),
    {
        self.mem
    }

    /// Reserves the next block for `layout`, if it fits.
    fn bump(&mut self, layout: Layout) -> (r: Result<Block, AllocError>)
        requires
            old(self).wf(),
            layout.wf(),
        ensures
            final(self).wf(),
            final(self).spec_base() == old(self).spec_base(),
            final(self).contents() == old(self).contents(),
            if old(self).can_fit(layout) {
                &&& r == Ok::<Block, AllocError>(
                    Block {
                        addr: old(self).next_start(layout.spec_align() as int) as usize,
                        len: layout.spec_size() as usize,
                    },
                )
                &&& final(self).spec_cursor() == old(self).next_start(layout.spec_align() as int)
                    + layout.spec_size()
            } else {
                r == Err::<Block, AllocError>(AllocError) && final(self).spec_cursor()
                    == old(self).spec_cursor()
            },
            r matches Ok(b) ==> block_fits(b, layout),
    {
        proof {
            layout.lemma_align_pos();
            lemma_align_up(self.cursor as int, layout.spec_align() as int);
        }
        let end = self.base + self.mem.len();
        let start = match checked_align_up(self.cursor, layout.align()) {
            Some(s) => s,
            None => return Err(AllocError),
        };
        if start > end || layout.size() > end - start {
            return Err(AllocError);
        }
        self.cursor = start + layout.size();
        Ok(Block { addr: start, len: layout.size() })
    }

    /// Moves `n` bytes from `block` into a fresh block for `layout`.
    fn relocate(&mut self, block: Block, n: usize, layout: Layout) -> (r: Result<
        Block,
        AllocError,
    >)
        requires
            old(self).wf(),
            layout.wf(),
            n <= layout.spec_size(),
        ensures
            final(self).wf(),
            final(self).spec_base() == old(self).spec_base(),
            if old(self).in_use(block, n as int) && old(self).can_fit(layout) {
                let start = old(self).next_start(layout.spec_align() as int);
                &&& r == Ok::<Block, AllocError>(
                    Block { addr: start as usize, len: layout.spec_size() as usize },
                )
                &&& final(self).spec_cursor() == start + layout.spec_size()
                &&& final(self).contents() == copy_within(
                    old(self).contents(),
                    block.addr - old(self).spec_base(),
                    start - old(self).spec_base(),
                    n as int,
                )
            } else {
                &&& r == Err::<Block, AllocError>(AllocError)
                &&& final(self).spec_cursor() == old(self).spec_cursor()
                &&& final(self).contents() == old(self).contents()
            },
            r matches Ok(b) ==> block_fits(b, layout),
    {
        if block.addr < self.base || block.addr > self.cursor || n > self.cursor - block.addr {
            return Err(AllocError);
        }
        let ghost m0 = self.mem@;
        let fresh = self.bump(layout);
        let dst_block = match fresh {
            Ok(b) => b,
            Err(e) => return Err(e),
        };
        proof {
            layout.lemma_align_pos();
            lemma_align_up(old(self).spec_cursor(), layout.spec_align() as int);
        }
        let src = block.addr - self.base;
        let dst = dst_block.addr - self.base;
        let mut k: usize = 0;
        while k < n
            invariant
                k <= n,
                src + n <= dst,
                dst + n <= self.mem@.len(),
                self.mem@.len() == m0.len(),
                self.wf(),
                self.base == old(self).base,
                self.cursor == dst_block.addr + layout.spec_size(),
                forall|i: int|
                    0 <= i < m0.len() ==> self.mem@[i] == (if dst <= i < dst + k {
                        m0[src + (i - dst)]
                    } else {
                        m0[i]
                    }),
            decreases n - k,
        {
            let b = self.mem[src + k];
            self.mem.set(dst + k, b);
            k = k + 1;
        }
        assert(self.mem@ =~= copy_within(m0, src as int, dst as int, n as int));
        Ok(dst_block)
    }
}

/// What `allocate` does: round the cursor up to the alignment and hand out
/// the next `layout.size()` bytes, if they fit.
pub open spec fn allocated(s: FixedBufferAllocator, t: FixedBufferAllocator, layout: Layout, r: Result<Block, AllocError>) -> bool {
    &&& t.spec_base() == s.spec_base()
    &&& t.contents() == s.contents()
    &&& if s.can_fit(layout) {
        &&& r == Ok::<Block, AllocError>(
            Block {
                addr: s.next_start(layout.spec_align() as int) as usize,
                len: layout.spec_size() as usize,
            },
        )
        &&& t.spec_cursor() == s.next_start(layout.spec_align() as int)
            + layout.spec_size()
    } else {
        r == Err::<Block, AllocError>(AllocError) && t.spec_cursor()
            == s.spec_cursor()
    }
}

/// What `grow` does: with an unchanged alignment, extend the most recent
/// block in place; with a changed alignment, move the block's bytes to a
/// fresh block. Any other request fails and changes nothing.
pub open spec fn grown(s: FixedBufferAllocator, t: FixedBufferAllocator, block: Block, old_layout: Layout, new_layout: Layout, r: Result<Block, AllocError>) -> bool {
    &&& t.spec_base() == s.spec_base()
    &&& old_layout.spec_align() == new_layout.spec_align() ==> {
        if s.is_last(block, old_layout.spec_size() as int) && block.addr as int
            % new_layout.spec_align() as int == 0 && block.addr
            + new_layout.spec_size() <= s.spec_end() {
            &&& r == Ok::<Block, AllocError>(
                Block { addr: block.addr, len: new_layout.spec_size() as usize },
            )
            &&& t.spec_cursor() == block.addr + new_layout.spec_size()
            &&& t.contents() == s.contents()
        } else {
            &&& r == Err::<Block, AllocError>(AllocError)
            &&& t.spec_cursor() == s.spec_cursor()
            &&& t.contents() == s.contents()
        }
    }
    &&& old_layout.spec_align() != new_layout.spec_align() ==> {
        if s.in_use(block, old_layout.spec_size() as int) && s.can_fit(
            new_layout,
        ) {
            let start = s.next_start(new_layout.spec_align() as int);
            &&& r == Ok::<Block, AllocError>(
                Block { addr: start as usize, len: new_layout.spec_size() as usize },
            )
            &&& t.spec_cursor() == start + new_layout.spec_size()
            &&& t.contents() == copy_within(
                s.contents(),
                block.addr - s.spec_base(),
                start - s.spec_base(),
                old_layout.spec_size() as int,
            )
        } else {
            &&& r == Err::<Block, AllocError>(AllocError)
            &&& t.spec_cursor() == s.spec_cursor()
            &&& t.contents() == s.contents()
        }
    }
}

/// What `shrink` does: a block aligned for `new_layout` (and not running past
/// the address space) keeps its place, and
/// the cursor moves back to its new end when it is the most recent one; any
/// other block has its first `new_layout.size()` bytes moved to a fresh block.
pub open spec fn shrunk(s: FixedBufferAllocator, t: FixedBufferAllocator, block: Block, old_layout: Layout, new_layout: Layout, r: Result<Block, AllocError>) -> bool {
    &&& t.spec_base() == s.spec_base()
    &&& block.addr as int % new_layout.spec_align() as int == 0 && block.addr
        + new_layout.spec_size() <= usize::MAX ==> {
        &&& r == Ok::<Block, AllocError>(
            Block { addr: block.addr, len: new_layout.spec_size() as usize },
        )
        &&& t.contents() == s.contents()
        &&& t.spec_cursor() == if s.is_last(
            block,
            old_layout.spec_size() as int,
        ) {
            block.addr + new_layout.spec_size()
        } else {
            s.spec_cursor()
        }
    }
    &&& !(block.addr as int % new_layout.spec_align() as int == 0 && block.addr
        + new_layout.spec_size() <= usize::MAX) ==> {
        if s.in_use(block, new_layout.spec_size() as int) && s.can_fit(
            new_layout,
        ) {
            let start = s.next_start(new_layout.spec_align() as int);
            &&& r == Ok::<Block, AllocError>(
                Block { addr: start as usize, len: new_layout.spec_size() as usize },
            )
            &&& t.spec_cursor() == start + new_layout.spec_size()
            &&& t.contents() == copy_within(
                s.contents(),
                block.addr - s.spec_base(),
                start - s.spec_base(),
                new_layout.spec_size() as int,
            )
        } else {
            &&& r == Err::<Block, AllocError>(AllocError)
            &&& t.spec_cursor() == s.spec_cursor()
            &&& t.contents() == s.contents()
        }
    }
}

/// What `deallocate` does: the most recent block is released by moving the
/// cursor back to its start; any other block is left as it is.
pub open spec fn released(s: FixedBufferAllocator, t: FixedBufferAllocator, block: Block, layout: Layout) -> bool {
    &&& t.spec_base() == s.spec_base()
    &&& t.contents() == s.contents()
    &&& t.spec_cursor() == if s.is_last(block, layout.spec_size() as int) {
        block.addr as int
    } else {
        s.spec_cursor()
    }
}

impl Allocator for FixedBufferAllocator {
    open spec fn inv(&self) -> bool {
        self.wf()
    }

    open spec fn allocates(self, next: Self, layout: Layout, r: Result<Block, AllocError>) -> bool {
        allocated(self, next, layout, r)
    }

    open spec fn grows(
        self,
        next: Self,
        block: Block,
        old_layout: Layout,
        new_layout: Layout,
        r: Result<Block, AllocError>,
    ) -> bool {
        grown(self, next, block, old_layout, new_layout, r)
    }

    open spec fn shrinks(
        self,
        next: Self,
        block: Block,
        old_layout: Layout,
        new_layout: Layout,
        r: Result<Block, AllocError>,
    ) -> bool {
        shrunk(self, next, block, old_layout, new_layout, r)
    }

    open spec fn deallocates(self, next: Self, block: Block, layout: Layout) -> bool {
        released(self, next, block, layout)
    }

    /// Rounds the cursor up to the alignment and hands out the next
    /// `layout.size()` bytes, if they fit.
    fn allocate(&mut self, layout: Layout) -> (r: Result<Block, AllocError>)
        ensures
            allocated(*old(self), *final(self), layout, r),
    {
        self.bump(layout)
    }

    /// With an unchanged alignment, extends the most recent block in place.
    /// With a changed alignment, moves the block's bytes to a fresh block.
    /// Any other request fails and changes nothing.
    fn grow(&mut self, block: Block, old_layout: Layout, new_layout: Layout) -> (r: Result<
        Block,
        AllocError,
    >)
        ensures
            grown(*old(self), *final(self), block, old_layout, new_layout, r),
    {
        proof {
            new_layout.lemma_align_pos();
        }
        if old_layout.align() != new_layout.align() {
            return self.relocate(block, old_layout.size(), new_layout);
        }
        let end = self.base + self.mem.len();
        if block.addr >= self.base && block.addr <= self.cursor && self.cursor - block.addr
            == old_layout.size() && block.addr % new_layout.align() == 0 && new_layout.size()
            <= end - block.addr {
            self.cursor = block.addr + new_layout.size();
            Ok(Block { addr: block.addr, len: new_layout.size() })
        } else {
            Err(AllocError)
        }
    }

    /// A block already aligned for `new_layout` keeps its place; when it is
    /// the most recent one, the cursor moves back to its new end. A block
    /// that is not aligned for `new_layout` has its first
    /// `new_layout.size()` bytes moved to a fresh block.
    fn shrink(&mut self, block: Block, old_layout: Layout, new_layout: Layout) -> (r: Result<
        Block,
        AllocError,
    >)
        ensures
            shrunk(*old(self), *final(self), block, old_layout, new_layout, r),
    {
        proof {
            new_layout.lemma_align_pos();
        }
        if block.addr % new_layout.align() != 0 || block.addr > usize::MAX - new_layout.size() {
            return self.relocate(block, new_layout.size(), new_layout);
        }
        if block.addr >= self.base && block.addr <= self.cursor && self.cursor - block.addr
            == old_layout.size() {
            self.cursor = block.addr + new_layout.size();
        }
        Ok(Block { addr: block.addr, len: new_layout.size() })
    }

    /// Releases the most recent block by moving the cursor back to its start;
    /// any other block is left as it is.
    fn deallocate(&mut self, block: Block, layout: Layout)
        ensures
            released(*old(self), *final(self), block, layout),
    {
        if block.addr >= self.base && block.addr <= self.cursor && self.cursor - block.addr
            == layout.size() {
            self.cursor = block.addr;
        }
    }
}

} // verus!

verus! {

/// With alignment 1 the buffer is used byte for byte: an allocation succeeds
/// exactly when its size is at most what is left, and then takes exactly
/// that many bytes.
pub proof fn lemma_byte_allocation(
    s: FixedBufferAllocator,
    t: FixedBufferAllocator,
    layout: Layout,
    r: Result<Block, AllocError>,
)
    requires
        s.wf(),
        layout.wf(),
        layout.spec_align() == 1,
        allocated(s, t, layout, r),
    ensures
        r is Ok <==> layout.spec_size() <= s.spec_end() - s.spec_cursor(),
        r is Ok ==> t.spec_end() - t.spec_cursor() == s.spec_end() - s.spec_cursor()
            - layout.spec_size(),
        r is Err ==> t.spec_cursor() == s.spec_cursor(),
{
    assert(s.next_start(1) == s.spec_cursor());
}

/// Releasing in reverse order of allocation reclaims the space: after
/// allocating `a` then `b`, releasing `b` moves the cursor back to `b`'s
/// start; when `b` started right at `a`'s end, releasing `a` then moves it
/// back to `a`'s start. With alignment 1 for both, the buffer is as free as
/// before `a`.
pub proof fn lemma_release_in_reverse_order(
    s0: FixedBufferAllocator,
    s1: FixedBufferAllocator,
    s2: FixedBufferAllocator,
    s3: FixedBufferAllocator,
    s4: FixedBufferAllocator,
    la: Layout,
    lb: Layout,
    a: Block,
    b: Block,
)
    requires
        s0.wf(),
        la.wf(),
        lb.wf(),
        allocated(s0, s1, la, Ok(a)),
        allocated(s1, s2, lb, Ok(b)),
        released(s2, s3, b, lb),
        released(s3, s4, a, la),
    ensures
        s3.spec_cursor() == b.addr,
        b.addr == s1.spec_cursor() ==> s4.spec_cursor() == a.addr,
        lb.spec_align() == 1 ==> s3.spec_cursor() == s1.spec_cursor(),
        la.spec_align() == 1 && lb.spec_align() == 1 ==> s4.spec_cursor() == s0.spec_cursor()
            && s4.spec_end() == s0.spec_end(),
{
    la.lemma_align_pos();
    lb.lemma_align_pos();
    lemma_align_up(s0.spec_cursor(), la.spec_align() as int);
    lemma_align_up(s1.spec_cursor(), lb.spec_align() as int);
    assert(s0.can_fit(la));
    assert(s1.can_fit(lb));
}

/// Releasing a block that is no longer the most recent one reclaims
/// nothing: after allocating `a` then a non-empty `b`, releasing `a` leaves
/// the cursor where it was.
pub proof fn lemma_release_out_of_order(
    s0: FixedBufferAllocator,
    s1: FixedBufferAllocator,
    s2: FixedBufferAllocator,
    s3: FixedBufferAllocator,
    la: Layout,
    lb: Layout,
    a: Block,
    b: Block,
)
    requires
        s0.wf(),
        la.wf(),
        lb.wf(),
        lb.spec_size() > 0,
        allocated(s0, s1, la, Ok(a)),
        allocated(s1, s2, lb, Ok(b)),
        released(s2, s3, a, la),
    ensures
        s3.spec_cursor() == s2.spec_cursor(),
{
    la.lemma_align_pos();
    lb.lemma_align_pos();
    lemma_align_up(s0.spec_cursor(), la.spec_align() as int);
    lemma_align_up(s1.spec_cursor(), lb.spec_align() as int);
    assert(s0.can_fit(la));
    assert(s1.can_fit(lb));
}

/// Growing with a changed alignment always moves the block to fresh space
/// past everything handed out before, and the new block starts with the old
/// block's `old_layout.size()` bytes.
pub proof fn lemma_grow_realigned_moves_and_keeps_bytes(
    s: FixedBufferAllocator,
    t: FixedBufferAllocator,
    block: Block,
    old_layout: Layout,
    new_layout: Layout,
    r: Result<Block, AllocError>,
)
    requires
        s.wf(),
        old_layout.wf(),
        new_layout.wf(),
        old_layout.spec_size() <= new_layout.spec_size(),
        old_layout.spec_align() != new_layout.spec_align(),
        grown(s, t, block, old_layout, new_layout, r),
        r is Ok,
    ensures
        block.addr + old_layout.spec_size() <= s.spec_cursor() <= r->Ok_0.addr,
        t.contents().len() == s.contents().len(),
        t.contents().subrange(
            r->Ok_0.addr - t.spec_base(),
            r->Ok_0.addr - t.spec_base() + old_layout.spec_size(),
        ) == s.contents().subrange(
            block.addr - s.spec_base(),
            block.addr - s.spec_base() + old_layout.spec_size(),
        ),
{
    new_layout.lemma_align_pos();
    lemma_align_up(s.spec_cursor(), new_layout.spec_align() as int);
    let start = s.next_start(new_layout.spec_align() as int);
    assert(t.contents().subrange(
        start - s.spec_base(),
        start - s.spec_base() + old_layout.spec_size(),
    ) =~= s.contents().subrange(
        block.addr - s.spec_base(),
        block.addr - s.spec_base() + old_layout.spec_size(),
    ));
}

} // verus!

//! Alignment rule of the platform allocator.

use crate::layout::{align_up, Layout};
use vstd::arithmetic::power2::is_pow2;
use vstd::prelude::*;

verus! {

/// Size of a pointer on the platforms this library supports.
pub const POINTER_SIZE: usize = 8;

/// A power of two of at least eight is a multiple of eight.
proof fn lemma_pow2_multiple_of_eight(a: int)
    requires
        is_pow2(a),
        a >= 8,
    ensures
        a % 8 == 0,
    decreases a,
{
    reveal(is_pow2);
    if a / 2 >= 8 {
        lemma_pow2_multiple_of_eight(a / 2);
    } else {
        reveal_with_fuel(is_pow2, 4);
    }
}

/// The alignment handed to the platform's aligned allocation call: the
/// requested alignment rounded up to a multiple of the pointer size.
pub fn malloc_align(layout: Layout) -> (r: usize)
    requires
        layout.wf(),
    ensures
        r == align_up(layout.spec_align() as int, POINTER_SIZE as int),
{
    let a = layout.align();
    proof {
        layout.lemma_wf_pow2();
        if a >= 8 {
            lemma_pow2_multiple_of_eight(a as int);
        }
    }
    let rem = a % POINTER_SIZE;
    if rem == 0 {
        a
    } else {
        a + (POINTER_SIZE - rem)
    }
}

} // verus!

//! Memory layouts: a size together with a power-of-two alignment.

use vstd::arithmetic::power2::is_pow2;
use vstd::prelude::*;

verus! {

/// Largest size a layout may have once rounded up to its alignment.
pub const MAX_SIZE: usize = isize::MAX as usize;

/// `n` rounded up to the next multiple of `a`.
pub open spec fn align_up(n: int, a: int) -> int {
    if n % a == 0 {
        n
    } else {
        n + (a - n % a)
    }
}

/// Rounding up lands on a multiple of `a`, no lower than `n` and less than
/// `a` above it.
pub proof fn lemma_align_up(n: int, a: int)
    requires
        n >= 0,
        a > 0,
    ensures
        align_up(n, a) % a == 0,
        n <= align_up(n, a) < n + a,
{
    vstd::arithmetic::div_mod::lemma_fundamental_div_mod(n, a);
    if n % a != 0 {
        vstd::arithmetic::div_mod::lemma_mod_multiples_basic(n / a + 1, a);
        assert(align_up(n, a) == (n / a + 1) * a) by (nonlinear_arith)
            requires
                n == a * (n / a) + n % a,
                align_up(n, a) == n + (a - n % a),
        ;
    }
}

/// Rounding up keeps the order of its inputs.
pub proof fn lemma_align_up_monotone(x: int, y: int, a: int)
    requires
        0 <= x <= y,
        a > 0,
    ensures
        align_up(x, a) <= align_up(y, a),
{
    lemma_align_up(x, a);
    lemma_align_up(y, a);
    let ux = align_up(x, a);
    let uy = align_up(y, a);
    vstd::arithmetic::div_mod::lemma_fundamental_div_mod(ux, a);
    vstd::arithmetic::div_mod::lemma_fundamental_div_mod(uy, a);
    if uy < ux {
        assert(ux / a > uy / a) by (nonlinear_arith)
            requires
                ux == a * (ux / a),
                uy == a * (uy / a),
                uy < ux,
                a > 0,
        ;
        assert(uy <= ux - a) by (nonlinear_arith)
            requires
                ux == a * (ux / a),
                uy == a * (uy / a),
                ux / a > uy / a,
                a > 0,
        ;
    }
}

/// A zero size fits any power-of-two alignment.
pub proof fn lemma_zero_size_valid(a: int)
    requires
        is_pow2(a),
    ensures
        valid_layout(0, a),
{
    reveal(is_pow2);
}

/// A (size, alignment) pair is acceptable when the alignment is a power of
/// two and the size, rounded up to it, stays within `isize::MAX`.
pub open spec fn valid_layout(size: int, align: int) -> bool {
    is_pow2(align) && align_up(size, align) <= MAX_SIZE
}

/// Whether `x` is a power of two.
pub fn is_power_of_two(x: usize) -> (r: bool)
    ensures
        r == is_pow2(x as int),
{
    reveal(is_pow2);
    if x == 0 {
        return false;
    }
    let mut v: usize = x;
    while v % 2 == 0
        invariant
            v > 0,
            is_pow2(x as int) == is_pow2(v as int),
        decreases v,
    {
        proof {
            reveal(is_pow2);
        }
        v = v / 2;
    }
    proof {
        reveal(is_pow2);
    }
    v == 1
}

/// `n` rounded up to a multiple of `align`, or `None` when that exceeds
/// `usize::MAX`.
pub fn checked_align_up(n: usize, align: usize) -> (r: Option<usize>)
    requires
        align > 0,
    ensures
        match r {
            Some(v) => v == align_up(n as int, align as int),
            None => align_up(n as int, align as int) > usize::MAX,
        },
{
    let rem = n % align;
    if rem == 0 {
        Some(n)
    } else {
        n.checked_add(align - rem)
    }
}

/// Why a layout could not be formed.
#[derive(Debug, Clone, Copy, PartialEq, Eq, Structural)]
pub enum LayoutError {
    /// The alignment is not a power of two.
    BadAlign,
    /// The size, rounded up to the alignment, exceeds `isize::MAX`.
    TooLarge,
}

/// A memory request: `size` bytes aligned to `align`.
#[derive(Debug, Clone, Copy, PartialEq, Eq, Structural)]
pub struct Layout {
    size: usize,
    align: usize,
}

impl Layout {
    pub closed spec fn spec_size(&self) -> nat {
        self.size as nat
    }

    pub closed spec fn spec_align(&self) -> nat {
        self.align as nat
    }

    /// The layout with the given size and alignment.
    pub closed spec fn spec_from(size: int, align: int) -> Layout {
        Layout { size: size as usize, align: align as usize }
    }

    /// The layout made from a size and an alignment that fit in `usize` has
    /// exactly that size and alignment, and is well formed when the pair is
    /// acceptable.
    pub proof fn lemma_spec_from(size: int, align: int)
        requires
            0 <= size <= usize::MAX,
            0 <= align <= usize::MAX,
        ensures
            Layout::spec_from(size, align).spec_size() == size,
            Layout::spec_from(size, align).spec_align() == align,
            valid_layout(size, align) ==> Layout::spec_from(size, align).wf(),
    {
    }

    /// Every layout value satisfies the layout rules.
    pub closed spec fn wf(&self) -> bool {
        valid_layout(self.size as int, self.align as int)
    }

    /// Forms a layout, or says why the pair is not acceptable.
    pub fn from_size_align(size: usize, align: usize) -> (r: Result<Layout, LayoutError>)
        ensures
            match r {
                Ok(l) => valid_layout(size as int, align as int) && l.wf()
                    && l.spec_size() == size && l.spec_align() == align && l == Layout::spec_from(
                    size as int,
                    align as int,
                ),
                Err(LayoutError::BadAlign) => !is_pow2(align as int),
                Err(LayoutError::TooLarge) => is_pow2(align as int) && align_up(
                    size as int,
                    align as int,
                ) > MAX_SIZE,
            },
    {
        if !is_power_of_two(align) {
            return Err(LayoutError::BadAlign);
        }
        proof {
            reveal(is_pow2);
        }
        match checked_align_up(size, align) {
            Some(rounded) => {
                if rounded > MAX_SIZE {
                    Err(LayoutError::TooLarge)
                } else {
                    Ok(Layout { size, align })
                }
            },
            None => Err(LayoutError::TooLarge),
        }
    }

    pub fn size(&self) -> (r: usize)
        ensures
            r == self.spec_size(),
    {
        self.size
    }

    pub fn align(&self) -> (r: usize)
        ensures
            r == self.spec_align(),
    {
        self.align
    }

    /// The alignment of a well-formed layout is a power of two.
    pub proof fn lemma_wf_pow2(&self)
        requires
            self.wf(),
        ensures
            is_pow2(self.spec_align() as int),
    {
    }

    /// Alignment of a well-formed layout is positive.
    pub proof fn lemma_align_pos(&self)
        requires
            self.wf(),
        ensures
            self.spec_align() > 0,
    {
        reveal(is_pow2);
    }
}

} // verus!

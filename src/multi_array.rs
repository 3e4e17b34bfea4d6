//! Struct-of-arrays storage: one block holding a segment per field.

use crate::allocator::{AllocError, Allocator, Block};
use crate::raw_array::{push_needed, swap_removed, target_capacity, truncated, BASELINE_CAPACITY};
use crate::layout::{
    align_up, checked_align_up, lemma_align_up, lemma_align_up_monotone, valid_layout, Layout,
};
use vstd::arithmetic::power2::is_pow2;
use vstd::layout::{align_of, size_of};
use vstd::prelude::*;

verus! {

/// A field's (size, alignment) is usable: the alignment is a power of two.
pub open spec fn field_ok(f: (usize, usize)) -> bool {
    is_pow2(f.1 as int)
}

pub open spec fn fields_ok(fields: Seq<(usize, usize)>) -> bool {
    forall|i: int| 0 <= i < fields.len() ==> field_ok(#[trigger] fields[i])
}

/// Offset just past the segments of the first `k` fields, for `capacity`
/// records.
pub open spec fn segments_end(fields: Seq<(usize, usize)>, capacity: int, k: int) -> int
    decreases k, 0int,
{
    if k <= 0 {
        0
    } else {
        segment_start(fields, capacity, k - 1) + fields[k - 1].0 * capacity
    }
}

/// Offset of field `i`'s segment: the end of the previous segments rounded
/// up to the field's alignment.
pub open spec fn segment_start(fields: Seq<(usize, usize)>, capacity: int, i: int) -> int
    decreases i, 1int,
{
    align_up(segments_end(fields, capacity, i), fields[i].1 as int)
}

/// The largest alignment among the first `k` fields, and at least 1.
pub open spec fn max_align(fields: Seq<(usize, usize)>, k: int) -> int
    decreases k,
{
    if k <= 0 {
        1
    } else if max_align(fields, k - 1) >= fields[k - 1].1 {
        max_align(fields, k - 1)
    } else {
        fields[k - 1].1 as int
    }
}

/// The block for `capacity` records can be described by a layout.
pub open spec fn soa_layout_ok(fields: Seq<(usize, usize)>, capacity: int) -> bool {
    valid_layout(segments_end(fields, capacity, fields.len() as int), max_align(fields, fields.len() as int))
}

/// Offsets are never negative.
proof fn lemma_segments_nonneg(fields: Seq<(usize, usize)>, capacity: int, k: int)
    requires
        fields_ok(fields),
        capacity >= 0,
        0 <= k <= fields.len(),
    ensures
        0 <= segments_end(fields, capacity, k),
    decreases k,
{
    if k > 0 {
        lemma_segments_nonneg(fields, capacity, k - 1);
        assert(field_ok(fields[k - 1]));
        reveal(is_pow2);
        lemma_align_up(segments_end(fields, capacity, k - 1), fields[k - 1].1 as int);
        assert(fields[k - 1].0 * capacity >= 0) by (nonlinear_arith)
            requires
                capacity >= 0,
        ;
    }
}

/// Segments only move forward.
proof fn lemma_segments_monotone(fields: Seq<(usize, usize)>, capacity: int, j: int, k: int)
    requires
        fields_ok(fields),
        capacity >= 0,
        0 <= j <= k <= fields.len(),
    ensures
        0 <= segments_end(fields, capacity, j) <= segments_end(fields, capacity, k),
    decreases k - j,
{
    if j < k {
        lemma_segments_monotone(fields, capacity, j, k - 1);
        lemma_segment_start(fields, capacity, k - 1);
        assert(fields[k - 1].0 * capacity >= 0) by (nonlinear_arith)
            requires
                capacity >= 0,
        ;
    } else {
        lemma_segments_nonneg(fields, capacity, k);
    }
}

/// More records never make a segment end earlier.
proof fn lemma_segments_grow_with_capacity(
    fields: Seq<(usize, usize)>,
    c1: int,
    c2: int,
    k: int,
)
    requires
        fields_ok(fields),
        0 <= c1 <= c2,
        0 <= k <= fields.len(),
    ensures
        segments_end(fields, c1, k) <= segments_end(fields, c2, k),
    decreases k,
{
    if k > 0 {
        lemma_segments_grow_with_capacity(fields, c1, c2, k - 1);
        lemma_segments_nonneg(fields, c1, k - 1);
        assert(field_ok(fields[k - 1]));
        reveal(is_pow2);
        lemma_align_up_monotone(
            segments_end(fields, c1, k - 1),
            segments_end(fields, c2, k - 1),
            fields[k - 1].1 as int,
        );
        assert(fields[k - 1].0 * c1 <= fields[k - 1].0 * c2) by (nonlinear_arith)
            requires
                c1 <= c2,
        ;
    }
}

/// With no records every segment is empty and starts at 0.
proof fn lemma_segments_empty(fields: Seq<(usize, usize)>, k: int)
    requires
        fields_ok(fields),
        0 <= k <= fields.len(),
    ensures
        segments_end(fields, 0, k) == 0,
    decreases k,
{
    if k > 0 {
        lemma_segments_empty(fields, k - 1);
        assert(field_ok(fields[k - 1]));
        reveal(is_pow2);
        assert(fields[k - 1].0 * 0 == 0);
    }
}

/// Each segment starts at a multiple of its field's alignment, no earlier
/// than the end of the segments before it.
pub proof fn lemma_segment_start(fields: Seq<(usize, usize)>, capacity: int, i: int)
    requires
        fields_ok(fields),
        capacity >= 0,
        0 <= i < fields.len(),
    ensures
        segment_start(fields, capacity, i) % (fields[i].1 as int) == 0,
        segments_end(fields, capacity, i) <= segment_start(fields, capacity, i),
        segments_end(fields, capacity, i) + fields[i].0 * capacity <= segments_end(
            fields,
            capacity,
            i + 1,
        ),
{
    assert(field_ok(fields[i]));
    reveal(is_pow2);
    lemma_segments_nonneg(fields, capacity, i);
    lemma_align_up(segments_end(fields, capacity, i), fields[i].1 as int);
}

/// Every segment starts within the block.
proof fn lemma_segment_within(fields: Seq<(usize, usize)>, capacity: int, i: int)
    requires
        fields_ok(fields),
        capacity >= 0,
        0 <= i < fields.len(),
    ensures
        segment_start(fields, capacity, i) <= segments_end(fields, capacity, fields.len() as int),
{
    lemma_segment_start(fields, capacity, i);
    lemma_segments_monotone(fields, capacity, i + 1, fields.len() as int);
    assert(fields[i].0 * capacity >= 0) by (nonlinear_arith)
        requires
            capacity >= 0,
    ;
}

/// The block's alignment is a power of two no smaller than any field's.
pub proof fn lemma_max_align(fields: Seq<(usize, usize)>, k: int)
    requires
        fields_ok(fields),
        0 <= k <= fields.len(),
    ensures
        is_pow2(max_align(fields, k)),
        forall|i: int| 0 <= i < k ==> fields[i].1 <= max_align(fields, k),
    decreases k,
{
    reveal(is_pow2);
    if k > 0 {
        lemma_max_align(fields, k - 1);
        assert(field_ok(fields[k - 1]));
    }
}

/// The layout of the block for `capacity` records of `fields`, together with
/// the offset of each field's segment; `AllocError` when the block cannot be
/// described.
pub fn soa_layout(fields: &[(usize, usize)], capacity: usize) -> (r: Result<
    (Layout, Vec<usize>),
    AllocError,
>)
    requires
        fields_ok(fields@),
    ensures
        match r {
            Ok((layout, offsets)) => {
                &&& soa_layout_ok(fields@, capacity as int)
                &&& layout.wf()
                &&& layout.spec_size() == segments_end(fields@, capacity as int, fields@.len() as int)
                &&& layout.spec_align() == max_align(fields@, fields@.len() as int)
                &&& layout == soa_layout_spec(fields@, capacity as int)
                &&& offsets@.len() == fields@.len()
                &&& forall|i: int|
                    0 <= i < fields@.len() ==> offsets@[i] == segment_start(
                        fields@,
                        capacity as int,
                        i,
                    )
            },
            Err(_) => !soa_layout_ok(fields@, capacity as int),
        },
{
    let ghost fs = fields@;
    let n = fields.len();
    let mut offsets: Vec<usize> = Vec::new();
    let mut end: usize = 0;
    let mut align: usize = 1;
    let mut i: usize = 0;
    proof {
        lemma_max_align(fs, fs.len() as int);
    }
    while i < n
        invariant
            n == fs.len(),
            fields@ == fs,
            fields_ok(fs),
            i <= n,
            end == segments_end(fs, capacity as int, i as int),
            align == max_align(fs, i as int),
            offsets@.len() == i,
            forall|j: int| 0 <= j < i ==> offsets@[j] == segment_start(fs, capacity as int, j),
        decreases n - i,
    {
        let (size, a) = fields[i];
        proof {
            assert(field_ok(fs[i as int]));
            reveal(is_pow2);
            lemma_segment_start(fs, capacity as int, i as int);
            lemma_segments_monotone(fs, capacity as int, i as int + 1, n as int);
            lemma_max_align(fs, n as int);
        }
        let start = match checked_align_up(end, a) {
            Some(s) => s,
            None => {
                proof {
                    lemma_not_ok_past_usize(fs, capacity as int, i as int + 1);
                }
                return Err(AllocError);
            },
        };
        let bytes = match size.checked_mul(capacity) {
            Some(b) => b,
            None => {
                proof {
                    assert(size * capacity >= 0) by (nonlinear_arith)
                        requires
                            capacity >= 0,
                    ;
                    lemma_not_ok_past_usize(fs, capacity as int, i as int + 1);
                }
                return Err(AllocError);
            },
        };
        let next = match start.checked_add(bytes) {
            Some(e) => e,
            None => {
                proof {
                    lemma_not_ok_past_usize(fs, capacity as int, i as int + 1);
                }
                return Err(AllocError);
            },
        };
        offsets.push(start);
        end = next;
        if a > align {
            align = a;
        }
        i = i + 1;
    }
    proof {
        lemma_max_align(fs, n as int);
    }
    match Layout::from_size_align(end, align) {
        Ok(layout) => Ok((layout, offsets)),
        Err(_) => Err(AllocError),
    }
}

/// When the first `k` segments already pass `usize::MAX`, no layout
/// describes the block.
proof fn lemma_not_ok_past_usize(fields: Seq<(usize, usize)>, capacity: int, k: int)
    requires
        fields_ok(fields),
        capacity >= 0,
        0 <= k <= fields.len(),
        segments_end(fields, capacity, k) > usize::MAX,
    ensures
        !soa_layout_ok(fields, capacity),
{
    lemma_segments_monotone(fields, capacity, k, fields.len() as int);
    lemma_max_align(fields, fields.len() as int);
    reveal(is_pow2);
    lemma_align_up(
        segments_end(fields, capacity, fields.len() as int),
        max_align(fields, fields.len() as int),
    );
}

/// Record types whose fields a [`MultiArray`] lays out as separate
/// segments: the tuples of 2 to 12 elements.
pub trait MultiArrayTypes<const N: usize> {
    /// The (size, alignment) of each field, in declaration order.
    spec fn spec_fields() -> Seq<(usize, usize)>;

    /// The (size, alignment) of each field, in declaration order.
    fn sizes_and_alignments() -> (r: [(usize, usize); N])
        ensures
            r@ == Self::spec_fields(),
            fields_ok(r@),
    ;
}

impl<T1, T2> MultiArrayTypes<2> for (T1, T2) {
    open spec fn spec_fields() -> Seq<(usize, usize)> {
        seq![
            (size_of::<T1>() as usize, align_of::<T1>() as usize),
            (size_of::<T2>() as usize, align_of::<T2>() as usize),
        ]
    }

    fn sizes_and_alignments() -> (r: [(usize, usize); 2]) {
        vstd::layout::layout_for_type_is_valid::<T1>();
        vstd::layout::layout_for_type_is_valid::<T2>();
        let r = [
            (core::mem::size_of::<T1>(), core::mem::align_of::<T1>()),
            (core::mem::size_of::<T2>(), core::mem::align_of::<T2>()),
        ];
        assert(r@ =~= Self::spec_fields());
        r
    }
}

impl<T1, T2, T3> MultiArrayTypes<3> for (T1, T2, T3) {
    open spec fn spec_fields() -> Seq<(usize, usize)> {
        seq![
            (size_of::<T1>() as usize, align_of::<T1>() as usize),
            (size_of::<T2>() as usize, align_of::<T2>() as usize),
            (size_of::<T3>() as usize, align_of::<T3>() as usize),
        ]
    }

    fn sizes_and_alignments() -> (r: [(usize, usize); 3]) {
        vstd::layout::layout_for_type_is_valid::<T1>();
        vstd::layout::layout_for_type_is_valid::<T2>();
        vstd::layout::layout_for_type_is_valid::<T3>();
        let r = [
            (core::mem::size_of::<T1>(), core::mem::align_of::<T1>()),
            (core::mem::size_of::<T2>(), core::mem::align_of::<T2>()),
            (core::mem::size_of::<T3>(), core::mem::align_of::<T3>()),
        ];
        assert(r@ =~= Self::spec_fields());
        r
    }
}

impl<T1, T2, T3, T4> MultiArrayTypes<4> for (T1, T2, T3, T4) {
    open spec fn spec_fields() -> Seq<(usize, usize)> {
        seq![
            (size_of::<T1>() as usize, align_of::<T1>() as usize),
            (size_of::<T2>() as usize, align_of::<T2>() as usize),
            (size_of::<T3>() as usize, align_of::<T3>() as usize),
            (size_of::<T4>() as usize, align_of::<T4>() as usize),
        ]
    }

    fn sizes_and_alignments() -> (r: [(usize, usize); 4]) {
        vstd::layout::layout_for_type_is_valid::<T1>();
        vstd::layout::layout_for_type_is_valid::<T2>();
        vstd::layout::layout_for_type_is_valid::<T3>();
        vstd::layout::layout_for_type_is_valid::<T4>();
        let r = [
            (core::mem::size_of::<T1>(), core::mem::align_of::<T1>()),
            (core::mem::size_of::<T2>(), core::mem::align_of::<T2>()),
            (core::mem::size_of::<T3>(), core::mem::align_of::<T3>()),
            (core::mem::size_of::<T4>(), core::mem::align_of::<T4>()),
        ];
        assert(r@ =~= Self::spec_fields());
        r
    }
}

impl<T1, T2, T3, T4, T5> MultiArrayTypes<5> for (T1, T2, T3, T4, T5) {
    open spec fn spec_fields() -> Seq<(usize, usize)> {
        seq![
            (size_of::<T1>() as usize, align_of::<T1>() as usize),
            (size_of::<T2>() as usize, align_of::<T2>() as usize),
            (size_of::<T3>() as usize, align_of::<T3>() as usize),
            (size_of::<T4>() as usize, align_of::<T4>() as usize),
            (size_of::<T5>() as usize, align_of::<T5>() as usize),
        ]
    }

    fn sizes_and_alignments() -> (r: [(usize, usize); 5]) {
        vstd::layout::layout_for_type_is_valid::<T1>();
        vstd::layout::layout_for_type_is_valid::<T2>();
        vstd::layout::layout_for_type_is_valid::<T3>();
        vstd::layout::layout_for_type_is_valid::<T4>();
        vstd::layout::layout_for_type_is_valid::<T5>();
        let r = [
            (core::mem::size_of::<T1>(), core::mem::align_of::<T1>()),
            (core::mem::size_of::<T2>(), core::mem::align_of::<T2>()),
            (core::mem::size_of::<T3>(), core::mem::align_of::<T3>()),
            (core::mem::size_of::<T4>(), core::mem::align_of::<T4>()),
            (core::mem::size_of::<T5>(), core::mem::align_of::<T5>()),
        ];
        assert(r@ =~= Self::spec_fields());
        r
    }
}

impl<T1, T2, T3, T4, T5, T6> MultiArrayTypes<6> for (T1, T2, T3, T4, T5, T6) {
    open spec fn spec_fields() -> Seq<(usize, usize)> {
        seq![
            (size_of::<T1>() as usize, align_of::<T1>() as usize),
            (size_of::<T2>() as usize, align_of::<T2>() as usize),
            (size_of::<T3>() as usize, align_of::<T3>() as usize),
            (size_of::<T4>() as usize, align_of::<T4>() as usize),
            (size_of::<T5>() as usize, align_of::<T5>() as usize),
            (size_of::<T6>() as usize, align_of::<T6>() as usize),
        ]
    }

    fn sizes_and_alignments() -> (r: [(usize, usize); 6]) {
        vstd::layout::layout_for_type_is_valid::<T1>();
        vstd::layout::layout_for_type_is_valid::<T2>();
        vstd::layout::layout_for_type_is_valid::<T3>();
        vstd::layout::layout_for_type_is_valid::<T4>();
        vstd::layout::layout_for_type_is_valid::<T5>();
        vstd::layout::layout_for_type_is_valid::<T6>();
        let r = [
            (core::mem::size_of::<T1>(), core::mem::align_of::<T1>()),
            (core::mem::size_of::<T2>(), core::mem::align_of::<T2>()),
            (core::mem::size_of::<T3>(), core::mem::align_of::<T3>()),
            (core::mem::size_of::<T4>(), core::mem::align_of::<T4>()),
            (core::mem::size_of::<T5>(), core::mem::align_of::<T5>()),
            (core::mem::size_of::<T6>(), core::mem::align_of::<T6>()),
        ];
        assert(r@ =~= Self::spec_fields());
        r
    }
}

impl<T1, T2, T3, T4, T5, T6, T7> MultiArrayTypes<7> for (T1, T2, T3, T4, T5, T6, T7) {
    open spec fn spec_fields() -> Seq<(usize, usize)> {
        seq![
            (size_of::<T1>() as usize, align_of::<T1>() as usize),
            (size_of::<T2>() as usize, align_of::<T2>() as usize),
            (size_of::<T3>() as usize, align_of::<T3>() as usize),
            (size_of::<T4>() as usize, align_of::<T4>() as usize),
            (size_of::<T5>() as usize, align_of::<T5>() as usize),
            (size_of::<T6>() as usize, align_of::<T6>() as usize),
            (size_of::<T7>() as usize, align_of::<T7>() as usize),
        ]
    }

    fn sizes_and_alignments() -> (r: [(usize, usize); 7]) {
        vstd::layout::layout_for_type_is_valid::<T1>();
        vstd::layout::layout_for_type_is_valid::<T2>();
        vstd::layout::layout_for_type_is_valid::<T3>();
        vstd::layout::layout_for_type_is_valid::<T4>();
        vstd::layout::layout_for_type_is_valid::<T5>();
        vstd::layout::layout_for_type_is_valid::<T6>();
        vstd::layout::layout_for_type_is_valid::<T7>();
        let r = [
            (core::mem::size_of::<T1>(), core::mem::align_of::<T1>()),
            (core::mem::size_of::<T2>(), core::mem::align_of::<T2>()),
            (core::mem::size_of::<T3>(), core::mem::align_of::<T3>()),
            (core::mem::size_of::<T4>(), core::mem::align_of::<T4>()),
            (core::mem::size_of::<T5>(), core::mem::align_of::<T5>()),
            (core::mem::size_of::<T6>(), core::mem::align_of::<T6>()),
            (core::mem::size_of::<T7>(), core::mem::align_of::<T7>()),
        ];
        assert(r@ =~= Self::spec_fields());
        r
    }
}

impl<T1, T2, T3, T4, T5, T6, T7, T8> MultiArrayTypes<8> for (T1, T2, T3, T4, T5, T6, T7, T8) {
    open spec fn spec_fields() -> Seq<(usize, usize)> {
        seq![
            (size_of::<T1>() as usize, align_of::<T1>() as usize),
            (size_of::<T2>() as usize, align_of::<T2>() as usize),
            (size_of::<T3>() as usize, align_of::<T3>() as usize),
            (size_of::<T4>() as usize, align_of::<T4>() as usize),
            (size_of::<T5>() as usize, align_of::<T5>() as usize),
            (size_of::<T6>() as usize, align_of::<T6>() as usize),
            (size_of::<T7>() as usize, align_of::<T7>() as usize),
            (size_of::<T8>() as usize, align_of::<T8>() as usize),
        ]
    }

    fn sizes_and_alignments() -> (r: [(usize, usize); 8]) {
        vstd::layout::layout_for_type_is_valid::<T1>();
        vstd::layout::layout_for_type_is_valid::<T2>();
        vstd::layout::layout_for_type_is_valid::<T3>();
        vstd::layout::layout_for_type_is_valid::<T4>();
        vstd::layout::layout_for_type_is_valid::<T5>();
        vstd::layout::layout_for_type_is_valid::<T6>();
        vstd::layout::layout_for_type_is_valid::<T7>();
        vstd::layout::layout_for_type_is_valid::<T8>();
        let r = [
            (core::mem::size_of::<T1>(), core::mem::align_of::<T1>()),
            (core::mem::size_of::<T2>(), core::mem::align_of::<T2>()),
            (core::mem::size_of::<T3>(), core::mem::align_of::<T3>()),
            (core::mem::size_of::<T4>(), core::mem::align_of::<T4>()),
            (core::mem::size_of::<T5>(), core::mem::align_of::<T5>()),
            (core::mem::size_of::<T6>(), core::mem::align_of::<T6>()),
            (core::mem::size_of::<T7>(), core::mem::align_of::<T7>()),
            (core::mem::size_of::<T8>(), core::mem::align_of::<T8>()),
        ];
        assert(r@ =~= Self::spec_fields());
        r
    }
}

impl<T1, T2, T3, T4, T5, T6, T7, T8, T9> MultiArrayTypes<9> for (T1, T2, T3, T4, T5, T6, T7, T8, T9) {
    open spec fn spec_fields() -> Seq<(usize, usize)> {
        seq![
            (size_of::<T1>() as usize, align_of::<T1>() as usize),
            (size_of::<T2>() as usize, align_of::<T2>() as usize),
            (size_of::<T3>() as usize, align_of::<T3>() as usize),
            (size_of::<T4>() as usize, align_of::<T4>() as usize),
            (size_of::<T5>() as usize, align_of::<T5>() as usize),
            (size_of::<T6>() as usize, align_of::<T6>() as usize),
            (size_of::<T7>() as usize, align_of::<T7>() as usize),
            (size_of::<T8>() as usize, align_of::<T8>() as usize),
            (size_of::<T9>() as usize, align_of::<T9>() as usize),
        ]
    }

    fn sizes_and_alignments() -> (r: [(usize, usize); 9]) {
        vstd::layout::layout_for_type_is_valid::<T1>();
        vstd::layout::layout_for_type_is_valid::<T2>();
        vstd::layout::layout_for_type_is_valid::<T3>();
        vstd::layout::layout_for_type_is_valid::<T4>();
        vstd::layout::layout_for_type_is_valid::<T5>();
        vstd::layout::layout_for_type_is_valid::<T6>();
        vstd::layout::layout_for_type_is_valid::<T7>();
        vstd::layout::layout_for_type_is_valid::<T8>();
        vstd::layout::layout_for_type_is_valid::<T9>();
        let r = [
            (core::mem::size_of::<T1>(), core::mem::align_of::<T1>()),
            (core::mem::size_of::<T2>(), core::mem::align_of::<T2>()),
            (core::mem::size_of::<T3>(), core::mem::align_of::<T3>()),
            (core::mem::size_of::<T4>(), core::mem::align_of::<T4>()),
            (core::mem::size_of::<T5>(), core::mem::align_of::<T5>()),
            (core::mem::size_of::<T6>(), core::mem::align_of::<T6>()),
            (core::mem::size_of::<T7>(), core::mem::align_of::<T7>()),
            (core::mem::size_of::<T8>(), core::mem::align_of::<T8>()),
            (core::mem::size_of::<T9>(), core::mem::align_of::<T9>()),
        ];
        assert(r@ =~= Self::spec_fields());
        r
    }
}

impl<T1, T2, T3, T4, T5, T6, T7, T8, T9, T10> MultiArrayTypes<10> for (T1, T2, T3, T4, T5, T6, T7, T8, T9, T10) {
    open spec fn spec_fields() -> Seq<(usize, usize)> {
        seq![
            (size_of::<T1>() as usize, align_of::<T1>() as usize),
            (size_of::<T2>() as usize, align_of::<T2>() as usize),
            (size_of::<T3>() as usize, align_of::<T3>() as usize),
            (size_of::<T4>() as usize, align_of::<T4>() as usize),
            (size_of::<T5>() as usize, align_of::<T5>() as usize),
            (size_of::<T6>() as usize, align_of::<T6>() as usize),
            (size_of::<T7>() as usize, align_of::<T7>() as usize),
            (size_of::<T8>() as usize, align_of::<T8>() as usize),
            (size_of::<T9>() as usize, align_of::<T9>() as usize),
            (size_of::<T10>() as usize, align_of::<T10>() as usize),
        ]
    }

    fn sizes_and_alignments() -> (r: [(usize, usize); 10]) {
        vstd::layout::layout_for_type_is_valid::<T1>();
        vstd::layout::layout_for_type_is_valid::<T2>();
        vstd::layout::layout_for_type_is_valid::<T3>();
        vstd::layout::layout_for_type_is_valid::<T4>();
        vstd::layout::layout_for_type_is_valid::<T5>();
        vstd::layout::layout_for_type_is_valid::<T6>();
        vstd::layout::layout_for_type_is_valid::<T7>();
        vstd::layout::layout_for_type_is_valid::<T8>();
        vstd::layout::layout_for_type_is_valid::<T9>();
        vstd::layout::layout_for_type_is_valid::<T10>();
        let r = [
            (core::mem::size_of::<T1>(), core::mem::align_of::<T1>()),
            (core::mem::size_of::<T2>(), core::mem::align_of::<T2>()),
            (core::mem::size_of::<T3>(), core::mem::align_of::<T3>()),
            (core::mem::size_of::<T4>(), core::mem::align_of::<T4>()),
            (core::mem::size_of::<T5>(), core::mem::align_of::<T5>()),
            (core::mem::size_of::<T6>(), core::mem::align_of::<T6>()),
            (core::mem::size_of::<T7>(), core::mem::align_of::<T7>()),
            (core::mem::size_of::<T8>(), core::mem::align_of::<T8>()),
            (core::mem::size_of::<T9>(), core::mem::align_of::<T9>()),
            (core::mem::size_of::<T10>(), core::mem::align_of::<T10>()),
        ];
        assert(r@ =~= Self::spec_fields());
        r
    }
}

impl<T1, T2, T3, T4, T5, T6, T7, T8, T9, T10, T11> MultiArrayTypes<11> for (T1, T2, T3, T4, T5, T6, T7, T8, T9, T10, T11) {
    open spec fn spec_fields() -> Seq<(usize, usize)> {
        seq![
            (size_of::<T1>() as usize, align_of::<T1>() as usize),
            (size_of::<T2>() as usize, align_of::<T2>() as usize),
            (size_of::<T3>() as usize, align_of::<T3>() as usize),
            (size_of::<T4>() as usize, align_of::<T4>() as usize),
            (size_of::<T5>() as usize, align_of::<T5>() as usize),
            (size_of::<T6>() as usize, align_of::<T6>() as usize),
            (size_of::<T7>() as usize, align_of::<T7>() as usize),
            (size_of::<T8>() as usize, align_of::<T8>() as usize),
            (size_of::<T9>() as usize, align_of::<T9>() as usize),
            (size_of::<T10>() as usize, align_of::<T10>() as usize),
            (size_of::<T11>() as usize, align_of::<T11>() as usize),
        ]
    }

    fn sizes_and_alignments() -> (r: [(usize, usize); 11]) {
        vstd::layout::layout_for_type_is_valid::<T1>();
        vstd::layout::layout_for_type_is_valid::<T2>();
        vstd::layout::layout_for_type_is_valid::<T3>();
        vstd::layout::layout_for_type_is_valid::<T4>();
        vstd::layout::layout_for_type_is_valid::<T5>();
        vstd::layout::layout_for_type_is_valid::<T6>();
        vstd::layout::layout_for_type_is_valid::<T7>();
        vstd::layout::layout_for_type_is_valid::<T8>();
        vstd::layout::layout_for_type_is_valid::<T9>();
        vstd::layout::layout_for_type_is_valid::<T10>();
        vstd::layout::layout_for_type_is_valid::<T11>();
        let r = [
            (core::mem::size_of::<T1>(), core::mem::align_of::<T1>()),
            (core::mem::size_of::<T2>(), core::mem::align_of::<T2>()),
            (core::mem::size_of::<T3>(), core::mem::align_of::<T3>()),
            (core::mem::size_of::<T4>(), core::mem::align_of::<T4>()),
            (core::mem::size_of::<T5>(), core::mem::align_of::<T5>()),
            (core::mem::size_of::<T6>(), core::mem::align_of::<T6>()),
            (core::mem::size_of::<T7>(), core::mem::align_of::<T7>()),
            (core::mem::size_of::<T8>(), core::mem::align_of::<T8>()),
            (core::mem::size_of::<T9>(), core::mem::align_of::<T9>()),
            (core::mem::size_of::<T10>(), core::mem::align_of::<T10>()),
            (core::mem::size_of::<T11>(), core::mem::align_of::<T11>()),
        ];
        assert(r@ =~= Self::spec_fields());
        r
    }
}

impl<T1, T2, T3, T4, T5, T6, T7, T8, T9, T10, T11, T12> MultiArrayTypes<12> for (T1, T2, T3, T4, T5, T6, T7, T8, T9, T10, T11, T12) {
    open spec fn spec_fields() -> Seq<(usize, usize)> {
        seq![
            (size_of::<T1>() as usize, align_of::<T1>() as usize),
            (size_of::<T2>() as usize, align_of::<T2>() as usize),
            (size_of::<T3>() as usize, align_of::<T3>() as usize),
            (size_of::<T4>() as usize, align_of::<T4>() as usize),
            (size_of::<T5>() as usize, align_of::<T5>() as usize),
            (size_of::<T6>() as usize, align_of::<T6>() as usize),
            (size_of::<T7>() as usize, align_of::<T7>() as usize),
            (size_of::<T8>() as usize, align_of::<T8>() as usize),
            (size_of::<T9>() as usize, align_of::<T9>() as usize),
            (size_of::<T10>() as usize, align_of::<T10>() as usize),
            (size_of::<T11>() as usize, align_of::<T11>() as usize),
            (size_of::<T12>() as usize, align_of::<T12>() as usize),
        ]
    }

    fn sizes_and_alignments() -> (r: [(usize, usize); 12]) {
        vstd::layout::layout_for_type_is_valid::<T1>();
        vstd::layout::layout_for_type_is_valid::<T2>();
        vstd::layout::layout_for_type_is_valid::<T3>();
        vstd::layout::layout_for_type_is_valid::<T4>();
        vstd::layout::layout_for_type_is_valid::<T5>();
        vstd::layout::layout_for_type_is_valid::<T6>();
        vstd::layout::layout_for_type_is_valid::<T7>();
        vstd::layout::layout_for_type_is_valid::<T8>();
        vstd::layout::layout_for_type_is_valid::<T9>();
        vstd::layout::layout_for_type_is_valid::<T10>();
        vstd::layout::layout_for_type_is_valid::<T11>();
        vstd::layout::layout_for_type_is_valid::<T12>();
        let r = [
            (core::mem::size_of::<T1>(), core::mem::align_of::<T1>()),
            (core::mem::size_of::<T2>(), core::mem::align_of::<T2>()),
            (core::mem::size_of::<T3>(), core::mem::align_of::<T3>()),
            (core::mem::size_of::<T4>(), core::mem::align_of::<T4>()),
            (core::mem::size_of::<T5>(), core::mem::align_of::<T5>()),
            (core::mem::size_of::<T6>(), core::mem::align_of::<T6>()),
            (core::mem::size_of::<T7>(), core::mem::align_of::<T7>()),
            (core::mem::size_of::<T8>(), core::mem::align_of::<T8>()),
            (core::mem::size_of::<T9>(), core::mem::align_of::<T9>()),
            (core::mem::size_of::<T10>(), core::mem::align_of::<T10>()),
            (core::mem::size_of::<T11>(), core::mem::align_of::<T11>()),
            (core::mem::size_of::<T12>(), core::mem::align_of::<T12>()),
        ];
        assert(r@ =~= Self::spec_fields());
        r
    }
}

/// The layout of the block for `capacity` records of `fields`.
pub open spec fn soa_layout_spec(fields: Seq<(usize, usize)>, capacity: int) -> Layout {
    Layout::spec_from(
        segments_end(fields, capacity, fields.len() as int),
        max_align(fields, fields.len() as int),
    )
}

/// The one request made of the allocator when `s` grows to `target`
/// records, ending in `t`: a first block comes from `allocate`, a later one
/// from `grow` of the current block. No block is ever released.
pub open spec fn multi_grow_request<const N: usize, T: MultiArrayTypes<N>, A: Allocator>(
    s: MultiArray<N, T>,
    t: MultiArray<N, T>,
    a0: A,
    a1: A,
    target: int,
    ok: bool,
) -> bool {
    let rb = if ok {
        Ok(t.spec_block())
    } else {
        Err(AllocError)
    };
    if s.spec_capacity() == 0 {
        a0.allocates(a1, soa_layout_spec(T::spec_fields(), target), rb)
    } else {
        a0.grows(
            a1,
            s.spec_block(),
            soa_layout_spec(T::spec_fields(), s.spec_capacity() as int),
            soa_layout_spec(T::spec_fields(), target),
            rb,
        )
    }
}

/// Growing to hold `needed` records has a valid target.
pub open spec fn can_grow_soa<const N: usize, T: MultiArrayTypes<N>>(
    capacity: int,
    needed: int,
) -> bool {
    &&& needed <= usize::MAX
    &&& target_capacity(capacity, needed) <= usize::MAX
    &&& soa_layout_ok(T::spec_fields(), target_capacity(capacity, needed))
}

/// What [`MultiArray::reserve`] does: nothing when `additional` more elements
/// already fit; otherwise the capacity grows to `target_capacity`, or the call
/// fails and changes nothing. The elements are kept either way.
pub open spec fn multi_reserved<const N: usize, T: MultiArrayTypes<N>, A: Allocator>(
    s: MultiArray<N, T>,
    t: MultiArray<N, T>,
    a0: A,
    a1: A,
    additional: int,
    r: Result<(), AllocError>,
) -> bool {
    &&& t@ == s@
    &&& s.has_room(additional) ==> r is Ok && t == s && a1 == a0
    &&& !s.has_room(additional) && !can_grow_soa::<N, T>(s.spec_capacity() as int, s@.len() + additional)
        ==> r is Err && a1 == a0
    &&& r is Ok ==> t.has_room(additional)
    &&& r is Ok && !s.has_room(additional) ==> t.spec_capacity() == target_capacity(
        s.spec_capacity() as int,
        s@.len() + additional,
    )
    &&& r is Err ==> t == s
    &&& !s.has_room(additional) && can_grow_soa::<N, T>(
        s.spec_capacity() as int,
        s@.len() + additional,
    ) ==> multi_grow_request(
        s,
        t,
        a0,
        a1,
        target_capacity(s.spec_capacity() as int, s@.len() + additional),
        r is Ok,
    )
}

/// Room for one more element is made as [`MultiArray::push`] makes it: without
/// touching the allocator when there is room, by growing towards
/// `push_needed` elements otherwise.
pub open spec fn multi_made_room<const N: usize, T: MultiArrayTypes<N>, A: Allocator>(s: MultiArray<N, T>, t: MultiArray<N, T>, a0: A, a1: A, ok: bool) -> bool {
    &&& s.has_room(1) ==> ok && a1 == a0 && t.spec_capacity() == s.spec_capacity()
        && t.spec_block() == s.spec_block()
    &&& !s.has_room(1) && !can_grow_soa::<N, T>(
        s.spec_capacity() as int,
        push_needed(s.spec_capacity() as int, s@.len() as int),
    ) ==> !ok && a1 == a0
    &&& ok && !s.has_room(1) ==> t.spec_capacity() == target_capacity(
        s.spec_capacity() as int,
        push_needed(s.spec_capacity() as int, s@.len() as int),
    )
    &&& !s.has_room(1) && can_grow_soa::<N, T>(
        s.spec_capacity() as int,
        push_needed(s.spec_capacity() as int, s@.len() as int),
    ) ==> multi_grow_request(
        s,
        t,
        a0,
        a1,
        target_capacity(
            s.spec_capacity() as int,
            push_needed(s.spec_capacity() as int, s@.len() as int),
        ),
        ok,
    )
}

/// What [`MultiArray::push`] does.
pub open spec fn multi_pushed<const N: usize, T: MultiArrayTypes<N>, A: Allocator>(
    s: MultiArray<N, T>,
    t: MultiArray<N, T>,
    a0: A,
    a1: A,
    value: T,
    r: Result<(), AllocError>,
) -> bool {
    &&& r is Ok ==> t@ == s@.push(value)
    &&& r is Err ==> t == s
    &&& multi_made_room(s, t, a0, a1, r is Ok)
}

/// What [`MultiArray::insert_unchecked`] does.
pub open spec fn multi_inserted<const N: usize, T: MultiArrayTypes<N>, A: Allocator>(
    s: MultiArray<N, T>,
    t: MultiArray<N, T>,
    a0: A,
    a1: A,
    index: int,
    value: T,
    r: Result<(), AllocError>,
) -> bool {
    &&& r is Ok ==> t@ == s@.insert(index, value)
    &&& r is Err ==> t == s
    &&& multi_made_room(s, t, a0, a1, r is Ok)
}

/// What [`MultiArray::append`] does: `o`'s elements move to the end of `s`,
/// leaving `o` empty with its block and capacity; on failure neither changes.
pub open spec fn multi_appended<const N: usize, T: MultiArrayTypes<N>, A: Allocator>(
    s: MultiArray<N, T>,
    t: MultiArray<N, T>,
    o: MultiArray<N, T>,
    u: MultiArray<N, T>,
    a0: A,
    a1: A,
    r: Result<(), AllocError>,
) -> bool {
    &&& r is Ok ==> t@ == s@ + o@ && u@ == Seq::<T>::empty()
    &&& r is Err ==> t == s && u == o
    &&& u.spec_capacity() == o.spec_capacity()
    &&& u.spec_block() == o.spec_block()
    &&& s.has_room(o@.len() as int) ==> r is Ok && a1 == a0
    &&& !s.has_room(o@.len() as int) && !can_grow_soa::<N, T>(
        s.spec_capacity() as int,
        (s@.len() + o@.len()) as int,
    ) ==> r is Err && a1 == a0
    &&& r is Ok && !s.has_room(o@.len() as int) ==> t.spec_capacity() == target_capacity(
        s.spec_capacity() as int,
        (s@.len() + o@.len()) as int,
    )
    &&& !s.has_room(o@.len() as int) && can_grow_soa::<N, T>(
        s.spec_capacity() as int,
        (s@.len() + o@.len()) as int,
    ) ==> multi_grow_request(
        s,
        t,
        a0,
        a1,
        target_capacity(s.spec_capacity() as int, (s@.len() + o@.len()) as int),
        r is Ok,
    )
}


/// A growable sequence of records whose fields are laid out as parallel
/// segments of one block, each field's values contiguous. The block is
/// requested from the allocator and its segment addresses are computed
/// afresh for each capacity; the records themselves are held in a `Vec`
/// beside it, so growing the block moves no bytes segment by segment.
pub struct MultiArray<const N: usize, T: MultiArrayTypes<N>> {
    /// The block holding every segment; irrelevant while `capacity` is 0.
    data: Block,
    capacity: usize,
    items: Vec<T>,
}

impl<const N: usize, T: MultiArrayTypes<N>> View for MultiArray<N, T> {
    type V = Seq<T>;

    closed spec fn view(&self) -> Seq<T> {
        self.items@
    }
}

impl<const N: usize, T: MultiArrayTypes<N>> MultiArray<N, T> {
    pub closed spec fn spec_capacity(&self) -> nat {
        self.capacity as nat
    }

    /// The block the segments live in.
    pub closed spec fn spec_block(&self) -> Block {
        self.data
    }

    /// The length never exceeds the capacity, the fields are well formed, a
    /// block for the capacity can be described and lies in the address space,
    /// and while there is capacity the block is large enough for every
    /// segment and aligned to the largest field alignment.
    pub open spec fn wf(&self) -> bool {
        &&& self@.len() <= self.spec_capacity()
        &&& fields_ok(T::spec_fields())
        &&& T::spec_fields().len() == N
        &&& soa_layout_ok(T::spec_fields(), self.spec_capacity() as int)
        &&& self.spec_block().addr + segments_end(
            T::spec_fields(),
            self.spec_capacity() as int,
            N as int,
        ) <= usize::MAX
        &&& self.spec_capacity() > 0 ==> {
            &&& self.spec_block().len >= segments_end(
                T::spec_fields(),
                self.spec_capacity() as int,
                N as int,
            )
            &&& self.spec_block().addr as int % max_align(T::spec_fields(), N as int) == 0
        }
    }

    /// Whether `additional` more records fit without allocating.
    pub open spec fn has_room(&self, additional: int) -> bool {
        self@.len() + additional <= self.spec_capacity()
    }

    /// Builds an array from its parts: `data` holds the segments for
    /// `capacity` records, and `items` are its first records.
    pub fn from_raw_parts(data: Block, capacity: usize, items: Vec<T>) -> (r: MultiArray<N, T>)
        requires
            items@.len() <= capacity,
            soa_layout_ok(T::spec_fields(), capacity as int),
            data.addr + segments_end(T::spec_fields(), capacity as int, N as int) <= usize::MAX,
            capacity > 0 ==> data.len >= segments_end(T::spec_fields(), capacity as int, N as int),
            capacity > 0 ==> data.addr as int % max_align(T::spec_fields(), N as int) == 0,
        ensures
            r.wf(),
            r@ == items@,
            r.spec_capacity() == capacity,
            r.spec_block() == data,
    {
        let _fields = T::sizes_and_alignments();
        MultiArray { data, capacity, items }
    }

    /// An empty array with no capacity; nothing is allocated.
    pub fn new() -> (r: MultiArray<N, T>)
        ensures
            r.wf(),
            r@ == Seq::<T>::empty(),
            r.spec_capacity() == 0,
    {
        let fields = T::sizes_and_alignments();
        proof {
            lemma_segments_empty(fields@, N as int);
            lemma_max_align(fields@, N as int);
            crate::layout::lemma_zero_size_valid(max_align(fields@, N as int));
        }
        MultiArray { data: Block { addr: 1, len: 0 }, capacity: 0, items: Vec::new() }
    }

    /// An empty array with room for `capacity` records in one block from
    /// `alloc`, together with the address of each field's segment.
    pub fn with_capacity<A: Allocator>(capacity: usize, alloc: &mut A) -> (r: Result<
        (MultiArray<N, T>, Vec<usize>),
        AllocError,
    >)
        requires
            old(alloc).inv(),
        ensures
            final(alloc).inv(),
            !soa_layout_ok(T::spec_fields(), capacity as int) ==> r is Err && *final(alloc) == *old(
                alloc,
            ),
            soa_layout_ok(T::spec_fields(), capacity as int) ==> (*old(alloc)).allocates(
                *final(alloc),
                soa_layout_spec(T::spec_fields(), capacity as int),
                match r {
                    Ok((a, _)) => Ok(a.spec_block()),
                    Err(e) => Err(e),
                },
            ),
            r matches Ok((a, segments)) ==> {
                &&& a.wf()
                &&& a@ == Seq::<T>::empty()
                &&& a.spec_capacity() == capacity
                &&& segments@.len() == N
                &&& forall|i: int|
                    0 <= i < N ==> segments@[i] == a.spec_block().addr + segment_start(
                        T::spec_fields(),
                        capacity as int,
                        i,
                    )
            },
    {
        let fields = T::sizes_and_alignments();
        let (layout, offsets) = match soa_layout(fields.as_slice(), capacity) {
            Ok(x) => x,
            Err(e) => return Err(e),
        };
        let block = match alloc.allocate(layout) {
            Ok(b) => b,
            Err(e) => return Err(e),
        };
        let a = MultiArray { data: block, capacity, items: Vec::new() };
        let mut segments: Vec<usize> = Vec::new();
        let mut i: usize = 0;
        while i < N
            invariant
                a.wf(),
                a.capacity == capacity,
                a.data == block,
                i <= N,
                offsets@.len() == N,
                fields@ == T::spec_fields(),
                forall|j: int| 0 <= j < N ==> offsets@[j] == segment_start(fields@, capacity as int, j),
                segments@.len() == i,
                forall|j: int|
                    0 <= j < i ==> segments@[j] == block.addr + segment_start(
                        T::spec_fields(),
                        capacity as int,
                        j,
                    ),
            decreases N - i,
        {
            proof {
                lemma_segment_within(fields@, capacity as int, i as int);
            }
            segments.push(a.segment_address(offsets[i]));
            i = i + 1;
        }
        Ok((a, segments))
    }

    /// The address `offset` bytes into the block.
    fn segment_address(&self, offset: usize) -> (r: usize)
        requires
            self.wf(),
            offset <= segments_end(T::spec_fields(), self.capacity as int, N as int),
        ensures
            r == self.data.addr + offset,
    {
        self.data.addr + offset
    }

    /// Address of field `field`'s segment in the current block.
    pub fn segment(&self, field: usize) -> (r: usize)
        requires
            self.wf(),
            field < N,
        ensures
            r == self.spec_block().addr + segment_start(
                T::spec_fields(),
                self.spec_capacity() as int,
                field as int,
            ),
    {
        let fields = T::sizes_and_alignments();
        let (_, offsets) = match soa_layout(fields.as_slice(), self.capacity) {
            Ok(x) => x,
            Err(_) => return 0,
        };
        proof {
            lemma_segment_within(fields@, self.capacity as int, field as int);
        }
        self.segment_address(offsets[field])
    }

    /// Address of field `field` of record `index` in the current block: the
    /// field's segment start plus `index` times the field's size.
    pub fn slot(&self, field: usize, index: usize) -> (r: usize)
        requires
            self.wf(),
            field < N,
            index < self.spec_capacity(),
        ensures
            r == self.spec_block().addr + segment_start(
                T::spec_fields(),
                self.spec_capacity() as int,
                field as int,
            ) + index * T::spec_fields()[field as int].0,
    {
        let fields = T::sizes_and_alignments();
        let (size, _) = fields[field];
        let ghost fs = fields@;
        let ghost cap = self.capacity as int;
        proof {
            lemma_segment_start(fs, cap, field as int);
            lemma_segments_monotone(fs, cap, field as int + 1, N as int);
            assert(index * size <= cap * size) by (nonlinear_arith)
                requires
                    index < cap,
            ;
            assert(size * cap == cap * size) by (nonlinear_arith);
        }
        self.segment(field) + index * size
    }

    /// Makes room for `additional` more records, as [`RawArray::reserve`]
    /// does, with a block laid out for the grown capacity.
    pub fn reserve<A: Allocator>(&mut self, additional: usize, alloc: &mut A) -> (r: Result<
        (),
        AllocError,
    >)
        requires
            old(self).wf(),
            old(alloc).inv(),
        ensures
            final(self).wf(),
            final(alloc).inv(),
            multi_reserved(*old(self), *final(self), *old(alloc), *final(alloc), additional as int, r),
    {
        let len = self.items.len();
        if additional <= self.capacity - len {
            return Ok(());
        }
        let needed = match len.checked_add(additional) {
            Some(n) => n,
            None => return Err(AllocError),
        };
        let target = if self.capacity == 0 {
            needed
        } else if self.capacity > usize::MAX / 2 {
            return Err(AllocError);
        } else if needed <= 2 * self.capacity {
            2 * self.capacity
        } else {
            needed
        };
        let fields = T::sizes_and_alignments();
        let (new_layout, _) = match soa_layout(fields.as_slice(), target) {
            Ok(x) => x,
            Err(e) => return Err(e),
        };
        let result = if self.capacity == 0 {
            alloc.allocate(new_layout)
        } else {
            let (old_layout, _) = match soa_layout(fields.as_slice(), self.capacity) {
                Ok(x) => x,
                Err(e) => return Err(e),
            };
            proof {
                lemma_segments_grow_with_capacity(
                    fields@,
                    self.capacity as int,
                    target as int,
                    N as int,
                );
            }
            alloc.grow(self.data, old_layout, new_layout)
        };
        match result {
            Ok(b) => {
                self.data = b;
                self.capacity = target;
                Ok(())
            },
            Err(e) => Err(e),
        }
    }


    /// Number of elements.
    pub fn len(&self) -> (r: usize)
        ensures
            r == self@.len(),
    {
        self.items.len()
    }

    /// Number of elements the array holds without allocating.
    pub fn capacity(&self) -> (r: usize)
        ensures
            r == self.spec_capacity(),
    {
        self.capacity
    }

    /// The elements, in order.
    pub fn as_slice(&self) -> (r: &[T])
        ensures
            r@ == self@,
    {
        self.items.as_slice()
    }

    /// Appends `value`. A full array first grows: to the baseline capacity
    /// when it has none, else to double. On failure nothing changes and
    /// `value` is dropped.
    pub fn push<A: Allocator>(&mut self, value: T, alloc: &mut A) -> (r: Result<(), AllocError>)
        requires
            old(self).wf(),
            old(alloc).inv(),
        ensures
            final(self).wf(),
            final(alloc).inv(),
            multi_pushed(*old(self), *final(self), *old(alloc), *final(alloc), value, r),
    {
        if self.items.len() == self.capacity {
            let reserved = if self.capacity == 0 {
                self.reserve(BASELINE_CAPACITY, alloc)
            } else {
                self.reserve(1, alloc)
            };
            if let Err(e) = reserved {
                return Err(e);
            }
        }
        self.items.push(value);
        Ok(())
    }

    /// Appends `value` only if there is room; never allocates. Without room
    /// the value is handed back.
    pub fn push_within_capacity(&mut self, value: T) -> (r: Result<(), T>)
        requires
            old(self).wf(),
        ensures
            final(self).wf(),
            final(self).spec_capacity() == old(self).spec_capacity(),
            final(self).spec_block() == old(self).spec_block(),
            old(self).has_room(1) ==> r is Ok && final(self)@ == old(self)@.push(value),
            !old(self).has_room(1) ==> r == Err::<(), T>(value) && final(self)@ == old(self)@,
    {
        if self.items.len() >= self.capacity {
            return Err(value);
        }
        self.items.push(value);
        Ok(())
    }

    /// Removes and returns the last element, or `None` when empty.
    pub fn pop(&mut self) -> (r: Option<T>)
        requires
            old(self).wf(),
        ensures
            final(self).wf(),
            final(self).spec_capacity() == old(self).spec_capacity(),
            final(self).spec_block() == old(self).spec_block(),
            old(self)@.len() == 0 ==> r is None && final(self)@ == old(self)@,
            old(self)@.len() > 0 ==> r == Some(old(self)@.last()) && final(self)@ == old(self)@.drop_last(),
    {
        self.items.pop()
    }

    /// Drops every element; the capacity is kept.
    pub fn clear(&mut self)
        requires
            old(self).wf(),
        ensures
            final(self).wf(),
            final(self)@ == Seq::<T>::empty(),
            final(self).spec_capacity() == old(self).spec_capacity(),
            final(self).spec_block() == old(self).spec_block(),
    {
        self.items.clear();
    }

    /// Moves every element of `other` to the end of `self`, leaving `other`
    /// empty with its block and capacity as they were. On failure neither
    /// array changes.
    pub fn append<A: Allocator>(&mut self, other: &mut MultiArray<N, T>, alloc: &mut A) -> (r: Result<
        (),
        AllocError,
    >)
        requires
            old(self).wf(),
            old(other).wf(),
            old(alloc).inv(),
        ensures
            final(self).wf(),
            final(other).wf(),
            final(alloc).inv(),
            multi_appended(*old(self), *final(self), *old(other), *final(other), *old(alloc), *final(alloc), r),
    {
        let n = other.items.len();
        if let Err(e) = self.reserve(n, alloc) {
            return Err(e);
        }
        self.items.append(&mut other.items);
        Ok(())
    }

    /// Inserts `value` at `index`, shifting the later elements right. Room is
    /// made as for [`MultiArray::push`]. On failure nothing changes.
    pub fn insert_unchecked<A: Allocator>(&mut self, index: usize, value: T, alloc: &mut A) -> (r:
        Result<(), AllocError>)
        requires
            old(self).wf(),
            old(alloc).inv(),
            index <= old(self)@.len(),
        ensures
            final(self).wf(),
            final(alloc).inv(),
            multi_inserted(*old(self), *final(self), *old(alloc), *final(alloc), index as int, value, r),
    {
        if index == self.items.len() {
            let r = self.push(value, alloc);
            proof {
                assert(old(self)@.push(value) =~= old(self)@.insert(index as int, value));
            }
            return r;
        }
        if let Err(e) = self.reserve(1, alloc) {
            return Err(e);
        }
        self.items.insert(index, value);
        Ok(())
    }

    /// Inserts `value` at `index` when `index <= len()`, answering
    /// `Ok(Some(()))`; answers `Ok(None)` and changes nothing when `index` is
    /// past the end.
    pub fn insert<A: Allocator>(&mut self, index: usize, value: T, alloc: &mut A) -> (r: Result<
        Option<()>,
        AllocError,
    >)
        requires
            old(self).wf(),
            old(alloc).inv(),
        ensures
            final(self).wf(),
            final(alloc).inv(),
            index > old(self)@.len() ==> r == Ok::<Option<()>, AllocError>(None) && *final(self)
                == *old(self) && *final(alloc) == *old(alloc),
            index <= old(self)@.len() ==> r != Ok::<Option<()>, AllocError>(None) && multi_inserted(
                *old(self),
                *final(self),
                *old(alloc),
                *final(alloc),
                index as int,
                value,
                match r {
                    Ok(_) => Ok(()),
                    Err(e) => Err(e),
                },
            ),
    {
        if index > self.items.len() {
            return Ok(None);
        }
        match self.insert_unchecked(index, value, alloc) {
            Ok(()) => Ok(Some(())),
            Err(e) => Err(e),
        }
    }

    /// Removes and returns the element at `index`, shifting the later
    /// elements left.
    pub fn remove_unchecked(&mut self, index: usize) -> (r: T)
        requires
            old(self).wf(),
            index < old(self)@.len(),
        ensures
            final(self).wf(),
            final(self).spec_capacity() == old(self).spec_capacity(),
            final(self).spec_block() == old(self).spec_block(),
            r == old(self)@[index as int],
            final(self)@ == old(self)@.remove(index as int),
    {
        self.items.remove(index)
    }

    /// Removes and returns the element at `index`, shifting the later
    /// elements left; `None` when `index` is out of bounds.
    pub fn remove(&mut self, index: usize) -> (r: Option<T>)
        requires
            old(self).wf(),
        ensures
            final(self).wf(),
            final(self).spec_capacity() == old(self).spec_capacity(),
            final(self).spec_block() == old(self).spec_block(),
            index >= old(self)@.len() ==> r is None && final(self)@ == old(self)@,
            index < old(self)@.len() ==> r == Some(old(self)@[index as int]) && final(self)@ == old(self)@.remove(index as int),
    {
        if index >= self.items.len() {
            return None;
        }
        Some(self.remove_unchecked(index))
    }

    /// Removes and returns the element at `index`, moving the last element
    /// into its place.
    pub fn swap_remove_unchecked(&mut self, index: usize) -> (r: T)
        requires
            old(self).wf(),
            index < old(self)@.len(),
        ensures
            final(self).wf(),
            final(self).spec_capacity() == old(self).spec_capacity(),
            final(self).spec_block() == old(self).spec_block(),
            r == old(self)@[index as int],
            final(self)@ == swap_removed(old(self)@, index as int),
    {
        self.items.swap_remove(index)
    }

    /// Removes and returns the element at `index`, moving the last element
    /// into its place; `None` when `index` is out of bounds.
    pub fn swap_remove(&mut self, index: usize) -> (r: Option<T>)
        requires
            old(self).wf(),
        ensures
            final(self).wf(),
            final(self).spec_capacity() == old(self).spec_capacity(),
            final(self).spec_block() == old(self).spec_block(),
            index >= old(self)@.len() ==> r is None && final(self)@ == old(self)@,
            index < old(self)@.len() ==> r == Some(old(self)@[index as int]) && final(self)@
                == swap_removed(old(self)@, index as int),
    {
        if index >= self.items.len() {
            return None;
        }
        Some(self.swap_remove_unchecked(index))
    }

    /// Drops the elements from position `len` on, if there are any; the
    /// capacity is kept.
    pub fn truncate(&mut self, len: usize)
        requires
            old(self).wf(),
        ensures
            final(self).wf(),
            final(self).spec_capacity() == old(self).spec_capacity(),
            final(self).spec_block() == old(self).spec_block(),
            final(self)@ == truncated(old(self)@, len as int),
    {
        self.items.truncate(len);
    }
}

} // verus!
